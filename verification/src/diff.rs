//! The diff oracle and the added-line resolver.
//!
//! Two revisions of a text file are compared as sequences of
//! newline-terminated lines (a final unterminated line is its own line).
//! An outside line-diff oracle reports the changed regions as hunks; from
//! those the crate builds the ordered edit script of equal, delete and
//! insert operations, and walks it with a new-file line cursor to obtain the
//! exact set of 1-indexed line numbers that are net-new in the second
//! revision.  The walk and everything after the oracle is verified; the
//! oracle itself is trusted against its source.

use vstd::prelude::*;
use vstd::string::StringExecFns;

verus! {

/// Number of occurrences of `c` in `s`.
pub open spec fn count_char(s: Seq<char>, c: char) -> nat
    decreases s.len(),
{
    if s.len() == 0 {
        0
    } else {
        (if s[0] == c {
            1nat
        } else {
            0nat
        }) + count_char(s.drop_first(), c)
    }
}

pub proof fn lemma_count_char_push(s: Seq<char>, x: char, c: char)
    ensures
        count_char(s.push(x), c) == count_char(s, c) + (if x == c {
            1nat
        } else {
            0nat
        }),
    decreases s.len(),
{
    if s.len() == 0 {
        assert(s.push(x)[0] == x);
        assert(count_char(Seq::<char>::empty(), c) == 0);
        assert(s.push(x).drop_first() =~= Seq::<char>::empty());
        assert(count_char(s.push(x), c) == (if x == c {
            1nat
        } else {
            0nat
        }));
    } else {
        assert(s.push(x)[0] == s[0]);
        assert(s.push(x).drop_first() =~= s.drop_first().push(x));
        lemma_count_char_push(s.drop_first(), x, c);
    }
}

pub proof fn lemma_count_char_le(s: Seq<char>, c: char)
    ensures
        count_char(s, c) <= s.len(),
    decreases s.len(),
{
    if s.len() > 0 {
        lemma_count_char_le(s.drop_first(), c);
    }
}

/// Number of lines in a text: one per newline, plus one for a final
/// unterminated line.  The empty text has no lines.
pub open spec fn line_count(s: Seq<char>) -> nat {
    if s.len() == 0 {
        0
    } else {
        count_char(s, '\n') + (if s[s.len() - 1] == '\n' {
            0nat
        } else {
            1nat
        })
    }
}

/// Count the lines of a text the way the diff oracle tokenizes it.
pub fn count_lines(s: &str) -> (r: usize)
    ensures
        r == line_count(s@),
{
    let n = s.unicode_len();
    if n == 0 {
        return 0;
    }
    let mut cnt: usize = 0;
    let mut i: usize = 0;
    proof {
        assert(s@.subrange(0, 0) =~= Seq::<char>::empty());
    }
    while i < n
        invariant
            i <= n,
            n == s@.len(),
            cnt <= i,
            cnt == count_char(s@.subrange(0, i as int), '\n'),
        decreases n - i,
    {
        let ch = s.get_char(i);
        proof {
            lemma_count_char_push(s@.subrange(0, i as int), s@[i as int], '\n');
            assert(s@.subrange(0, i + 1) =~= s@.subrange(0, i as int).push(s@[i as int]));
        }
        if ch == '\n' {
            cnt = cnt + 1;
        }
        i = i + 1;
    }
    proof {
        assert(s@.subrange(0, n as int) =~= s@);
    }
    let last = s.get_char(n - 1);
    if last == '\n' {
        cnt
    } else {
        proof {
            assert(s@ =~= s@.drop_last().push(s@[n - 1]));
            lemma_count_char_push(s@.drop_last(), s@[n - 1], '\n');
            lemma_count_char_le(s@.drop_last(), '\n');
        }
        cnt + 1
    }
}

/// One changed region of a line diff: the lines `before_start..before_end`
/// of the old text were replaced by the lines `after_start..after_end` of
/// the new text (0-indexed, end exclusive, either side possibly empty).
#[derive(Clone, Copy, Debug, PartialEq, Eq, Structural)]
pub struct DiffHunk {
    pub before_start: u32,
    pub before_end: u32,
    pub after_start: u32,
    pub after_end: u32,
}

/// Well-formedness of a hunk sequence against texts of `old_n` and `new_n`
/// lines, with `prev_b`/`prev_a` lines of each side already consumed:
/// hunks are ordered, non-empty, and separated by equally long runs of
/// unchanged lines on both sides, the final run included.
pub open spec fn hunks_chain(
    hs: Seq<DiffHunk>,
    prev_b: int,
    prev_a: int,
    old_n: int,
    new_n: int,
) -> bool
    decreases hs.len(),
{
    if hs.len() == 0 {
        &&& old_n - prev_b == new_n - prev_a
        &&& old_n - prev_b >= 0
    } else {
        let h = hs[0];
        &&& prev_b <= h.before_start
        &&& h.before_start - prev_b == h.after_start - prev_a
        &&& h.before_start <= h.before_end
        &&& h.after_start <= h.after_end
        &&& (h.before_end - h.before_start) + (h.after_end - h.after_start) > 0
        &&& hunks_chain(hs.drop_first(), h.before_end as int, h.after_end as int, old_n, new_n)
    }
}

/// A well-formed chain stays within the line counts.
pub proof fn lemma_chain_bounds(hs: Seq<DiffHunk>, prev_b: int, prev_a: int, old_n: int, new_n: int)
    requires
        hunks_chain(hs, prev_b, prev_a, old_n, new_n),
    ensures
        prev_b <= old_n,
        prev_a <= new_n,
        hs.len() > 0 ==> hs[0].before_end <= old_n && hs[0].after_end <= new_n,
    decreases hs.len(),
{
    if hs.len() > 0 {
        lemma_chain_bounds(
            hs.drop_first(),
            hs[0].before_end as int,
            hs[0].after_end as int,
            old_n,
            new_n,
        );
    }
}

/// The fields of each hunk, as plain tuples.
pub open spec fn hunk_quads(hs: Seq<DiffHunk>) -> Seq<(u32, u32, u32, u32)> {
    hs.map_values(|h: DiffHunk| (h.before_start, h.before_end, h.after_start, h.after_end))
}

/// The hunks the line-diff oracle reports for a pair of texts.  The oracle
/// is deterministic: the hunks depend on the two texts alone.
pub uninterp spec fn line_hunks_of(old: Seq<char>, new: Seq<char>) -> Seq<(u32, u32, u32, u32)>;

/// Relies on imara_diff: `InternedInput::new` tokenizes both texts into
/// newline-terminated lines, `Diff::compute` with the Myers algorithm marks
/// the removed and added lines of a valid edit script between them, and
/// `postprocess_lines` slides the hunks the way the VCS's own differ groups
/// them without changing their validity.  `Diff::hunks` then yields the
/// changed regions in monotonically increasing order, each non-empty, with
/// the unchanged lines between and around them matched one to one — the
/// chain shape stated below.  Equal texts tokenize equally and yield no
/// hunks.  The oracle refuses texts of `i32::MAX` lines or more, which the
/// precondition excludes.
#[verifier::external_body]
fn compute_line_hunks(old: &str, new: &str) -> (r: Vec<DiffHunk>)
    requires
        line_count(old@) < 0x7fff_ffff,
        line_count(new@) < 0x7fff_ffff,
    ensures
        hunk_quads(r@) == line_hunks_of(old@, new@),
        hunks_chain(r@, 0, 0, line_count(old@) as int, line_count(new@) as int),
        old@ == new@ ==> r@.len() == 0,
{
    let input = imara_diff::InternedInput::new(old, new);
    let mut diff = imara_diff::Diff::compute(imara_diff::Algorithm::Myers, &input);
    diff.postprocess_lines(&input);
    diff.hunks().map(
        |h| DiffHunk {
            before_start: h.before.start,
            before_end: h.before.end,
            after_start: h.after.start,
            after_end: h.after.end,
        },
    ).collect()
}

/// One line-level edit operation, carrying the affected line's 1-indexed
/// position in the old and/or new text.
#[derive(Clone, Copy, Debug, PartialEq, Eq, Structural)]
pub enum LineEditOp {
    Equal { old_line: u32, new_line: u32 },
    Delete { old_line: u32 },
    Insert { new_line: u32 },
}

/// `n` equal operations pairing old lines from `b + 1` with new lines from
/// `a + 1` (0-indexed bases, 1-indexed lines).
pub open spec fn equal_run(b: int, a: int, n: nat) -> Seq<LineEditOp> {
    Seq::new(
        n,
        |i: int| LineEditOp::Equal { old_line: (b + i + 1) as u32, new_line: (a + i + 1) as u32 },
    )
}

/// `n` delete operations for old lines from `b + 1`.
pub open spec fn delete_run(b: int, n: nat) -> Seq<LineEditOp> {
    Seq::new(n, |i: int| LineEditOp::Delete { old_line: (b + i + 1) as u32 })
}

/// `n` insert operations for new lines from `a + 1`.
pub open spec fn insert_run(a: int, n: nat) -> Seq<LineEditOp> {
    Seq::new(n, |i: int| LineEditOp::Insert { new_line: (a + i + 1) as u32 })
}

/// The ordered edit script a hunk chain describes, with `b`/`a` lines of
/// each side already consumed: equal operations up to each hunk, that
/// hunk's deletes then inserts, and a final equal run to the end of both
/// texts.
pub open spec fn script_spec(hs: Seq<DiffHunk>, b: int, a: int, old_n: int, new_n: int) -> Seq<
    LineEditOp,
>
    decreases hs.len(),
{
    if hs.len() == 0 {
        equal_run(b, a, (old_n - b) as nat)
    } else {
        let h = hs[0];
        equal_run(b, a, (h.before_start - b) as nat) + delete_run(
            h.before_start as int,
            (h.before_end - h.before_start) as nat,
        ) + insert_run(h.after_start as int, (h.after_end - h.after_start) as nat) + script_spec(
            hs.drop_first(),
            h.before_end as int,
            h.after_end as int,
            old_n,
            new_n,
        )
    }
}

fn push_equal_run(ops: &mut Vec<LineEditOp>, b: u32, a: u32, n: u32)
    requires
        b + n <= u32::MAX,
        a + n <= u32::MAX,
    ensures
        final(ops)@ == old(ops)@ + equal_run(b as int, a as int, n as nat),
{
    let mut j: u32 = 0;
    proof {
        assert(ops@ + equal_run(b as int, a as int, 0) =~= ops@);
    }
    while j < n
        invariant
            j <= n,
            b + n <= u32::MAX,
            a + n <= u32::MAX,
            ops@ == old(ops)@ + equal_run(b as int, a as int, j as nat),
        decreases n - j,
    {
        let ghost prev = ops@;
        ops.push(LineEditOp::Equal { old_line: b + j + 1, new_line: a + j + 1 });
        proof {
            assert(ops@ =~= old(ops)@ + equal_run(b as int, a as int, (j + 1) as nat));
        }
        j = j + 1;
    }
}

fn push_delete_run(ops: &mut Vec<LineEditOp>, b: u32, n: u32)
    requires
        b + n <= u32::MAX,
    ensures
        final(ops)@ == old(ops)@ + delete_run(b as int, n as nat),
{
    let mut j: u32 = 0;
    proof {
        assert(ops@ + delete_run(b as int, 0) =~= ops@);
    }
    while j < n
        invariant
            j <= n,
            b + n <= u32::MAX,
            ops@ == old(ops)@ + delete_run(b as int, j as nat),
        decreases n - j,
    {
        ops.push(LineEditOp::Delete { old_line: b + j + 1 });
        proof {
            assert(ops@ =~= old(ops)@ + delete_run(b as int, (j + 1) as nat));
        }
        j = j + 1;
    }
}

fn push_insert_run(ops: &mut Vec<LineEditOp>, a: u32, n: u32)
    requires
        a + n <= u32::MAX,
    ensures
        final(ops)@ == old(ops)@ + insert_run(a as int, n as nat),
{
    let mut j: u32 = 0;
    proof {
        assert(ops@ + insert_run(a as int, 0) =~= ops@);
    }
    while j < n
        invariant
            j <= n,
            a + n <= u32::MAX,
            ops@ == old(ops)@ + insert_run(a as int, j as nat),
        decreases n - j,
    {
        ops.push(LineEditOp::Insert { new_line: a + j + 1 });
        proof {
            assert(ops@ =~= old(ops)@ + insert_run(a as int, (j + 1) as nat));
        }
        j = j + 1;
    }
}

/// Expand a well-formed hunk chain into the full ordered edit script of the
/// two texts.
pub fn edit_script_from_hunks(hunks: &Vec<DiffHunk>, old_lines: usize, new_lines: usize) -> (r:
    Vec<LineEditOp>)
    requires
        hunks_chain(hunks@, 0, 0, old_lines as int, new_lines as int),
        old_lines < 0x7fff_ffff,
        new_lines < 0x7fff_ffff,
    ensures
        r@ == script_spec(hunks@, 0, 0, old_lines as int, new_lines as int),
{
    let n = hunks.len();
    let mut ops: Vec<LineEditOp> = Vec::new();
    let mut b: u32 = 0;
    let mut a: u32 = 0;
    let mut hi: usize = 0;
    proof {
        assert(hunks@.subrange(0, n as int) =~= hunks@);
    }
    while hi < n
        invariant
            hi <= n,
            n == hunks@.len(),
            old_lines < 0x7fff_ffff,
            new_lines < 0x7fff_ffff,
            hunks_chain(
                hunks@.subrange(hi as int, n as int),
                b as int,
                a as int,
                old_lines as int,
                new_lines as int,
            ),
            script_spec(hunks@, 0, 0, old_lines as int, new_lines as int) == ops@ + script_spec(
                hunks@.subrange(hi as int, n as int),
                b as int,
                a as int,
                old_lines as int,
                new_lines as int,
            ),
        decreases n - hi,
    {
        let ghost rest = hunks@.subrange(hi as int, n as int);
        proof {
            assert(rest[0] == hunks@[hi as int]);
            assert(rest.drop_first() =~= hunks@.subrange(hi + 1, n as int));
            lemma_chain_bounds(rest, b as int, a as int, old_lines as int, new_lines as int);
            lemma_chain_bounds(
                rest.drop_first(),
                rest[0].before_end as int,
                rest[0].after_end as int,
                old_lines as int,
                new_lines as int,
            );
        }
        let h = hunks[hi];
        let ghost ops0 = ops@;
        let gap = h.before_start - b;
        push_equal_run(&mut ops, b, a, gap);
        push_delete_run(&mut ops, h.before_start, h.before_end - h.before_start);
        push_insert_run(&mut ops, h.after_start, h.after_end - h.after_start);
        proof {
            assert(ops@ =~= ops0 + (equal_run(b as int, a as int, (h.before_start - b) as nat)
                + delete_run(h.before_start as int, (h.before_end - h.before_start) as nat)
                + insert_run(h.after_start as int, (h.after_end - h.after_start) as nat)));
            assert(script_spec(
                rest,
                b as int,
                a as int,
                old_lines as int,
                new_lines as int,
            ) =~= (equal_run(b as int, a as int, (h.before_start - b) as nat) + delete_run(
                h.before_start as int,
                (h.before_end - h.before_start) as nat,
            ) + insert_run(h.after_start as int, (h.after_end - h.after_start) as nat))
                + script_spec(
                rest.drop_first(),
                h.before_end as int,
                h.after_end as int,
                old_lines as int,
                new_lines as int,
            ));
            assert(ops0 + (equal_run(b as int, a as int, (h.before_start - b) as nat)
                + delete_run(h.before_start as int, (h.before_end - h.before_start) as nat)
                + insert_run(h.after_start as int, (h.after_end - h.after_start) as nat))
                + script_spec(
                rest.drop_first(),
                h.before_end as int,
                h.after_end as int,
                old_lines as int,
                new_lines as int,
            ) =~= ops0 + script_spec(rest, b as int, a as int, old_lines as int, new_lines as int));
        }
        b = h.before_end;
        a = h.after_end;
        hi = hi + 1;
    }
    proof {
        assert(hunks@.subrange(n as int, n as int) =~= Seq::<DiffHunk>::empty());
    }
    push_equal_run(&mut ops, b, a, (old_lines as u32) - b);
    proof {
        assert(ops@ =~= script_spec(hunks@, 0, 0, old_lines as int, new_lines as int));
    }
    ops
}

/// The added-line numbers an edit script yields when walked with a new-file
/// line cursor starting at `cursor`: deletes contribute nothing and keep the
/// cursor, equals advance it, inserts record it and advance it.
pub open spec fn added_of_ops(ops: Seq<LineEditOp>, cursor: int) -> Seq<u32>
    decreases ops.len(),
{
    if ops.len() == 0 {
        Seq::empty()
    } else {
        match ops[0] {
            LineEditOp::Delete { .. } => added_of_ops(ops.drop_first(), cursor),
            LineEditOp::Equal { .. } => added_of_ops(ops.drop_first(), cursor + 1),
            LineEditOp::Insert { .. } => seq![cursor as u32] + added_of_ops(
                ops.drop_first(),
                cursor + 1,
            ),
        }
    }
}

/// Walk an edit script and collect the 1-indexed new-file line numbers of
/// its insert operations.
pub fn added_lines(ops: &Vec<LineEditOp>) -> (r: Vec<u32>)
    requires
        ops@.len() < 0xffff_ffff,
    ensures
        r@ == added_of_ops(ops@, 1),
{
    let n = ops.len();
    let mut r: Vec<u32> = Vec::new();
    let mut cursor: u32 = 1;
    let mut i: usize = 0;
    proof {
        assert(ops@.subrange(0, n as int) =~= ops@);
    }
    while i < n
        invariant
            i <= n,
            n == ops@.len(),
            n < 0xffff_ffff,
            cursor <= 1 + i,
            added_of_ops(ops@, 1) == r@ + added_of_ops(
                ops@.subrange(i as int, n as int),
                cursor as int,
            ),
        decreases n - i,
    {
        let ghost rest = ops@.subrange(i as int, n as int);
        proof {
            assert(rest[0] == ops@[i as int]);
            assert(rest.drop_first() =~= ops@.subrange(i + 1, n as int));
        }
        match ops[i] {
            LineEditOp::Delete { .. } => {},
            LineEditOp::Equal { .. } => {
                cursor = cursor + 1;
            },
            LineEditOp::Insert { .. } => {
                let ghost prev = r@;
                r.push(cursor);
                proof {
                    assert(r@ =~= prev + seq![cursor]);
                    assert(prev + (seq![cursor] + added_of_ops(rest.drop_first(), cursor + 1))
                        =~= (prev + seq![cursor]) + added_of_ops(rest.drop_first(), cursor + 1));
                }
                cursor = cursor + 1;
            },
        }
        i = i + 1;
    }
    proof {
        assert(ops@.subrange(n as int, n as int) =~= Seq::<LineEditOp>::empty());
        assert(r@ + Seq::<u32>::empty() =~= r@);
    }
    r
}

/// The 1-indexed line numbers `lo + 1 ..= hi`.
pub open spec fn line_range(lo: int, hi: int) -> Seq<u32> {
    Seq::new((hi - lo) as nat, |i: int| (lo + i + 1) as u32)
}

/// The added-line numbers a hunk sequence describes: for each hunk, the
/// 1-indexed lines of its inserted range.
pub open spec fn added_lines_seq(hs: Seq<DiffHunk>) -> Seq<u32>
    decreases hs.len(),
{
    if hs.len() == 0 {
        Seq::empty()
    } else {
        line_range(hs[0].after_start as int, hs[0].after_end as int) + added_lines_seq(
            hs.drop_first(),
        )
    }
}

proof fn lemma_added_equal_prefix(b: int, a: int, n: nat, rest: Seq<LineEditOp>, c: int)
    ensures
        added_of_ops(equal_run(b, a, n) + rest, c) == added_of_ops(rest, c + n),
    decreases n,
{
    if n == 0 {
        assert(equal_run(b, a, 0) + rest =~= rest);
    } else {
        assert((equal_run(b, a, n) + rest)[0] == equal_run(b, a, n)[0]);
        assert((equal_run(b, a, n) + rest).drop_first() =~= equal_run(b + 1, a + 1, (n - 1) as nat)
            + rest);
        lemma_added_equal_prefix(b + 1, a + 1, (n - 1) as nat, rest, c + 1);
    }
}

proof fn lemma_added_delete_prefix(b: int, n: nat, rest: Seq<LineEditOp>, c: int)
    ensures
        added_of_ops(delete_run(b, n) + rest, c) == added_of_ops(rest, c),
    decreases n,
{
    if n == 0 {
        assert(delete_run(b, 0) + rest =~= rest);
    } else {
        assert((delete_run(b, n) + rest)[0] == delete_run(b, n)[0]);
        assert((delete_run(b, n) + rest).drop_first() =~= delete_run(b + 1, (n - 1) as nat) + rest);
        lemma_added_delete_prefix(b + 1, (n - 1) as nat, rest, c);
    }
}

proof fn lemma_added_insert_prefix(a: int, n: nat, rest: Seq<LineEditOp>, c: int)
    ensures
        added_of_ops(insert_run(a, n) + rest, c) == Seq::new(n, |i: int| (c + i) as u32)
            + added_of_ops(rest, c + n),
    decreases n,
{
    if n == 0 {
        assert(insert_run(a, 0) + rest =~= rest);
        assert(Seq::new(0, |i: int| (c + i) as u32) + added_of_ops(rest, c) =~= added_of_ops(
            rest,
            c,
        ));
    } else {
        assert((insert_run(a, n) + rest)[0] == insert_run(a, n)[0]);
        assert((insert_run(a, n) + rest).drop_first() =~= insert_run(a + 1, (n - 1) as nat) + rest);
        lemma_added_insert_prefix(a + 1, (n - 1) as nat, rest, c + 1);
        assert(seq![c as u32] + (Seq::new((n - 1) as nat, |i: int| (c + 1 + i) as u32)
            + added_of_ops(rest, c + n)) =~= Seq::new(n, |i: int| (c + i) as u32) + added_of_ops(
            rest,
            c + n,
        ));
    }
}

/// Walking the edit script of a well-formed hunk chain with the cursor at
/// the first unconsumed new line yields exactly the hunks' inserted lines.
pub proof fn lemma_script_added(hs: Seq<DiffHunk>, b: int, a: int, old_n: int, new_n: int)
    requires
        hunks_chain(hs, b, a, old_n, new_n),
    ensures
        added_of_ops(script_spec(hs, b, a, old_n, new_n), a + 1) == added_lines_seq(hs),
    decreases hs.len(),
{
    if hs.len() == 0 {
        let m = (old_n - b) as nat;
        assert(equal_run(b, a, m) + Seq::<LineEditOp>::empty() =~= equal_run(b, a, m));
        lemma_added_equal_prefix(b, a, m, Seq::empty(), a + 1);
    } else {
        let h = hs[0];
        let gap = (h.before_start - b) as nat;
        let del = (h.before_end - h.before_start) as nat;
        let ins = (h.after_end - h.after_start) as nat;
        let tail = script_spec(hs.drop_first(), h.before_end as int, h.after_end as int, old_n,
            new_n);
        assert(script_spec(hs, b, a, old_n, new_n) =~= equal_run(b, a, gap) + (delete_run(
            h.before_start as int,
            del,
        ) + (insert_run(h.after_start as int, ins) + tail)));
        lemma_added_equal_prefix(b, a, gap, delete_run(h.before_start as int, del) + (insert_run(
            h.after_start as int,
            ins,
        ) + tail), a + 1);
        assert(a + 1 + gap == h.after_start + 1);
        lemma_added_delete_prefix(h.before_start as int, del, insert_run(h.after_start as int, ins)
            + tail, h.after_start + 1);
        lemma_added_insert_prefix(h.after_start as int, ins, tail, h.after_start + 1);
        lemma_script_added(hs.drop_first(), h.before_end as int, h.after_end as int, old_n, new_n);
        assert(Seq::new(ins, |i: int| (h.after_start + 1 + i) as u32) =~= line_range(
            h.after_start as int,
            h.after_end as int,
        ));
    }
}

/// The added lines of a well-formed chain are strictly increasing and lie
/// within `(prev_a, new_n]`.
pub proof fn lemma_added_lines_bounds(
    hs: Seq<DiffHunk>,
    prev_b: int,
    prev_a: int,
    old_n: int,
    new_n: int,
)
    requires
        hunks_chain(hs, prev_b, prev_a, old_n, new_n),
        new_n <= u32::MAX,
    ensures
        forall|i: int|
            0 <= i < added_lines_seq(hs).len() ==> prev_a < #[trigger] added_lines_seq(hs)[i]
                <= new_n,
        forall|i: int, j: int|
            0 <= i < j < added_lines_seq(hs).len() ==> added_lines_seq(hs)[i] < added_lines_seq(
                hs,
            )[j],
    decreases hs.len(),
{
    if hs.len() > 0 {
        let h = hs[0];
        lemma_chain_bounds(hs, prev_b, prev_a, old_n, new_n);
        lemma_added_lines_bounds(
            hs.drop_first(),
            h.before_end as int,
            h.after_end as int,
            old_n,
            new_n,
        );
        let first = line_range(h.after_start as int, h.after_end as int);
        let rest = added_lines_seq(hs.drop_first());
        assert forall|i: int|
            0 <= i < added_lines_seq(hs).len() implies prev_a < #[trigger] added_lines_seq(hs)[i]
            <= new_n by {
            if i < first.len() {
                assert(added_lines_seq(hs)[i] == first[i]);
                assert(first[i] == h.after_start + i + 1);
            } else {
                assert(added_lines_seq(hs)[i] == rest[i - first.len()]);
            }
        }
        assert forall|i: int, j: int|
            0 <= i < j < added_lines_seq(hs).len() implies added_lines_seq(hs)[i]
            < added_lines_seq(hs)[j] by {
            if j < first.len() {
                assert(added_lines_seq(hs)[i] == first[i]);
                assert(added_lines_seq(hs)[j] == first[j]);
            } else if i < first.len() {
                assert(added_lines_seq(hs)[i] == first[i]);
                assert(first[i] == h.after_start + i + 1);
                assert(first[i] <= h.after_end);
                assert(added_lines_seq(hs)[j] == rest[j - first.len()]);
                assert(h.after_end < rest[j - first.len()]);
            } else {
                assert(added_lines_seq(hs)[i] == rest[i - first.len()]);
                assert(added_lines_seq(hs)[j] == rest[j - first.len()]);
            }
        }
    }
}

/// When the old text is already exhausted, a well-formed chain inserts
/// every remaining new line: the added lines are the whole range.
pub proof fn lemma_added_lines_full(hs: Seq<DiffHunk>, prev_b: int, prev_a: int, new_n: int)
    requires
        hunks_chain(hs, prev_b, prev_a, prev_b, new_n),
        new_n <= u32::MAX,
    ensures
        added_lines_seq(hs) == line_range(prev_a, new_n),
    decreases hs.len(),
{
    if hs.len() == 0 {
        assert(prev_a == new_n);
        assert(added_lines_seq(hs) =~= line_range(prev_a, new_n));
    } else {
        let h = hs[0];
        lemma_chain_bounds(hs, prev_b, prev_a, prev_b, new_n);
        assert(h.before_start == prev_b && h.before_end == prev_b);
        assert(h.after_start == prev_a);
        lemma_added_lines_full(hs.drop_first(), h.before_end as int, h.after_end as int, new_n);
        assert(line_range(prev_a, h.after_end as int) + line_range(h.after_end as int, new_n)
            =~= line_range(prev_a, new_n));
    }
}

proof fn lemma_script_len(hs: Seq<DiffHunk>, b: int, a: int, old_n: int, new_n: int)
    requires
        hunks_chain(hs, b, a, old_n, new_n),
    ensures
        script_spec(hs, b, a, old_n, new_n).len() <= (old_n - b) + (new_n - a),
    decreases hs.len(),
{
    if hs.len() > 0 {
        let h = hs[0];
        lemma_script_len(hs.drop_first(), h.before_end as int, h.after_end as int, old_n, new_n);
    }
}

/// A text with a final unterminated line closed by a newline.  Lines are
/// compared without regard to whether the last one is newline-terminated:
/// the oracle's tokens keep their terminator, so both texts are normalized
/// before they reach it, making its tokens correspond one to one with the
/// split-on-newline lines the contracts count.
pub open spec fn normalized_text(s: Seq<char>) -> Seq<char> {
    if s.len() > 0 && s[s.len() - 1] != '\n' {
        s.push('\n')
    } else {
        s
    }
}

/// Normalization closes the last line without changing the line count.
pub proof fn lemma_line_count_normalized(s: Seq<char>)
    ensures
        line_count(normalized_text(s)) == line_count(s),
{
    if s.len() > 0 && s[s.len() - 1] != '\n' {
        lemma_count_char_push(s, '\n', '\n');
        assert(s.push('\n')[s.len() as int] == '\n');
    }
}

fn normalize_newline(s: &str) -> (r: String)
    ensures
        r@ == normalized_text(s@),
{
    let n = s.unicode_len();
    if n == 0 {
        return s.to_owned();
    }
    let last = s.get_char(n - 1);
    if last == '\n' {
        s.to_owned()
    } else {
        let mut r = s.to_owned();
        r.append("\n");
        proof {
            reveal_strlit("\n");
            assert(r@ =~= s@.push('\n'));
        }
        r
    }
}

/// The hunk sequence a quad sequence names.
pub open spec fn hunks_of_quads(q: Seq<(u32, u32, u32, u32)>) -> Seq<DiffHunk> {
    q.map_values(
        |t: (u32, u32, u32, u32)| DiffHunk {
            before_start: t.0,
            before_end: t.1,
            after_start: t.2,
            after_end: t.3,
        },
    )
}

proof fn lemma_quads_roundtrip(hs: Seq<DiffHunk>)
    ensures
        hunks_of_quads(hunk_quads(hs)) == hs,
{
    assert(hunks_of_quads(hunk_quads(hs)) =~= hs);
}

/// The diff oracle's contract: the ordered edit script between two texts,
/// deterministic in the texts, with equal texts yielding an all-equal
/// script.
pub fn diff_lines(old: &str, new: &str) -> (r: Vec<LineEditOp>)
    requires
        line_count(old@) < 0x7fff_ffff,
        line_count(new@) < 0x7fff_ffff,
    ensures
        r@ == script_spec(
            hunks_of_quads(line_hunks_of(normalized_text(old@), normalized_text(new@))),
            0,
            0,
            line_count(old@) as int,
            line_count(new@) as int,
        ),
        old@ == new@ ==> r@ == equal_run(0, 0, line_count(old@)),
{
    let old_norm = normalize_newline(old);
    let new_norm = normalize_newline(new);
    proof {
        lemma_line_count_normalized(old@);
        lemma_line_count_normalized(new@);
    }
    let hunks = compute_line_hunks(old_norm.as_str(), new_norm.as_str());
    let old_lines = count_lines(old);
    let new_lines = count_lines(new);
    let r = edit_script_from_hunks(&hunks, old_lines, new_lines);
    proof {
        lemma_quads_roundtrip(hunks@);
    }
    r
}

/// The added-line resolver: the exact set of 1-indexed line numbers of the
/// new text that are net-new relative to the old text, as a strictly
/// increasing vector.  Deterministic in the two texts; every number lies in
/// `1 ..= line_count(new)`; equal texts add nothing; against an empty old
/// text every line of the new text is added.
pub fn added_lines_between(old: &str, new: &str) -> (r: Vec<u32>)
    requires
        line_count(old@) < 0x7fff_ffff,
        line_count(new@) < 0x7fff_ffff,
    ensures
        r@ == added_lines_seq(
            hunks_of_quads(line_hunks_of(normalized_text(old@), normalized_text(new@))),
        ),
        forall|i: int| 0 <= i < r@.len() ==> 1 <= #[trigger] r@[i] <= line_count(new@),
        forall|i: int, j: int| 0 <= i < j < r@.len() ==> r@[i] < r@[j],
        old@ == new@ ==> r@.len() == 0,
        line_count(old@) == 0 ==> r@ == line_range(0, line_count(new@) as int),
{
    let old_norm = normalize_newline(old);
    let new_norm = normalize_newline(new);
    proof {
        lemma_line_count_normalized(old@);
        lemma_line_count_normalized(new@);
    }
    let hunks = compute_line_hunks(old_norm.as_str(), new_norm.as_str());
    let old_lines = count_lines(old);
    let new_lines = count_lines(new);
    proof {
        lemma_script_len(hunks@, 0, 0, old_lines as int, new_lines as int);
    }
    let ops = edit_script_from_hunks(&hunks, old_lines, new_lines);
    let r = added_lines(&ops);
    proof {
        lemma_quads_roundtrip(hunks@);
        lemma_script_added(hunks@, 0, 0, old_lines as int, new_lines as int);
        lemma_added_lines_bounds(hunks@, 0, 0, old_lines as int, new_lines as int);
        if line_count(old@) == 0 {
            lemma_added_lines_full(hunks@, 0, 0, new_lines as int);
        }
    }
    r
}

/// Two revisions of one file, identified by its repository-relative,
/// forward-slash-separated path.  A file present only in the new revision
/// carries an empty old text.
#[derive(Debug, Clone)]
pub struct FileRevisionPair {
    pub path: String,
    pub old_text: String,
    pub new_text: String,
}

/// The added lines of one file: a strictly increasing vector of 1-indexed
/// line numbers of the new revision.
#[derive(Debug, Clone)]
pub struct AddedLineEntry {
    pub path: String,
    pub lines: Vec<u32>,
}

/// The added-line set of one revision pair.
pub open spec fn added_lines_of_pair(p: FileRevisionPair) -> Seq<u32> {
    added_lines_seq(
        hunks_of_quads(
            line_hunks_of(normalized_text(p.old_text@), normalized_text(p.new_text@)),
        ),
    )
}

/// Resolve the added lines of every file pair: one entry per pair, under
/// the pair's path, each line number within the new revision's line count
/// and the numbers strictly increasing.
pub fn added_line_sets(pairs: &Vec<FileRevisionPair>) -> (r: Vec<AddedLineEntry>)
    requires
        forall|k: int|
            0 <= k < pairs@.len() ==> line_count(#[trigger] pairs@[k].old_text@) < 0x7fff_ffff
                && line_count(pairs@[k].new_text@) < 0x7fff_ffff,
    ensures
        r@.len() == pairs@.len(),
        forall|k: int|
            0 <= k < r@.len() ==> (#[trigger] r@[k]).path@ == pairs@[k].path@ && r@[k].lines@
                == added_lines_of_pair(pairs@[k]),
        forall|k: int, i: int|
            0 <= k < r@.len() && 0 <= i < r@[k].lines@.len() ==> 1 <= (#[trigger] r@[k].lines@[i])
                <= line_count(pairs@[k].new_text@),
        forall|k: int, i: int, j: int|
            0 <= k < r@.len() && 0 <= i < j < r@[k].lines@.len() ==> (#[trigger] r@[k].lines@[i])
                < (#[trigger] r@[k].lines@[j]),
{
    let n = pairs.len();
    let mut r: Vec<AddedLineEntry> = Vec::new();
    let mut k: usize = 0;
    while k < n
        invariant
            k <= n,
            n == pairs@.len(),
            r@.len() == k,
            forall|k2: int|
                0 <= k2 < pairs@.len() ==> line_count(#[trigger] pairs@[k2].old_text@)
                    < 0x7fff_ffff && line_count(pairs@[k2].new_text@) < 0x7fff_ffff,
            forall|k2: int|
                0 <= k2 < k ==> (#[trigger] r@[k2]).path@ == pairs@[k2].path@ && r@[k2].lines@
                    == added_lines_of_pair(pairs@[k2]),
            forall|k2: int, i: int|
                0 <= k2 < k && 0 <= i < r@[k2].lines@.len() ==> 1 <= (
                #[trigger] r@[k2].lines@[i]) <= line_count(pairs@[k2].new_text@),
            forall|k2: int, i: int, j: int|
                0 <= k2 < k && 0 <= i < j < r@[k2].lines@.len() ==> (#[trigger] r@[k2].lines@[i])
                    < (#[trigger] r@[k2].lines@[j]),
        decreases n - k,
    {
        let p = &pairs[k];
        let lines = added_lines_between(p.old_text.as_str(), p.new_text.as_str());
        r.push(AddedLineEntry { path: p.path.clone(), lines });
        k = k + 1;
    }
    r
}

} // verus!
