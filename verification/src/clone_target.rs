//! Verified extraction of the target directory of a `clone` invocation.
//!
//! After a clone finishes, the surrounding tooling needs the directory the
//! repository landed in so it can fetch authorship notes there.  The
//! directory is either the second positional argument of the clone command
//! or, when absent, derived from the last path component of the repository
//! URL, the way the VCS itself names the directory.

use vstd::prelude::*;

use crate::text::{contains_char, rfind_char, rfind_char_spec, str_eq, trim_end_char_len,
    trim_end_char_spec};

verus! {

/// Whether `s` ends in the four characters `.git`.
pub open spec fn has_dotgit_suffix(s: Seq<char>) -> bool {
    &&& s.len() >= 4
    &&& s[s.len() - 4] == '.'
    &&& s[s.len() - 3] == 'g'
    &&& s[s.len() - 2] == 'i'
    &&& s[s.len() - 1] == 't'
}

/// The last component of `url` once trailing slashes are removed: what
/// follows the last `/`, or, failing that, the last `:` (covering SCP-like
/// `user@host:path` syntax), or the whole remainder.
pub open spec fn last_component_spec(url: Seq<char>) -> Seq<char> {
    let t = trim_end_char_spec(url, '/');
    match rfind_char_spec(t, '/') {
        Some(i) => t.subrange(i + 1, t.len() as int),
        None => match rfind_char_spec(t, ':') {
            Some(i) => t.subrange(i + 1, t.len() as int),
            None => t,
        },
    }
}

/// Directory name derived from a repository URL: its last component with a
/// `.git` suffix stripped; `None` when nothing is left.
pub open spec fn derive_directory_spec(url: Seq<char>) -> Option<Seq<char>> {
    let comp = last_component_spec(url);
    if comp.len() == 0 {
        None
    } else {
        let stem = if has_dotgit_suffix(comp) {
            comp.subrange(0, comp.len() - 4)
        } else {
            comp
        };
        if stem.len() == 0 {
            None
        } else {
            Some(stem)
        }
    }
}

/// Derive the target directory name from a repository URL, mimicking the
/// VCS's behavior of using the last path component and stripping a `.git`
/// suffix.
pub fn derive_directory_from_url(url: &str) -> (r: Option<String>)
    ensures
        match r {
            Some(d) => derive_directory_spec(url@) == Some(d@),
            None => derive_directory_spec(url@) is None,
        },
{
    let e = trim_end_char_len(url, '/');
    let t = url.substring_char(0, e);
    let tn = t.unicode_len();
    proof {
        lemma_rfind_in_range(t@, '/');
        lemma_rfind_in_range(t@, ':');
    }
    let comp_start: usize = match rfind_char(t, '/') {
        Some(i) => i + 1,
        None => match rfind_char(t, ':') {
            Some(i) => i + 1,
            None => 0,
        },
    };
    proof {
        if comp_start == 0 {
            assert(t@.subrange(0, tn as int) =~= t@);
        }
    }
    let comp = t.substring_char(comp_start, tn);
    let cn = comp.unicode_len();
    if cn == 0 {
        return None;
    }
    let is_dotgit = cn >= 4 && comp.get_char(cn - 4) == '.' && comp.get_char(cn - 3) == 'g'
        && comp.get_char(cn - 2) == 'i' && comp.get_char(cn - 1) == 't';
    let stem = if is_dotgit {
        comp.substring_char(0, cn - 4)
    } else {
        comp
    };
    if stem.unicode_len() == 0 {
        None
    } else {
        Some(stem.to_owned())
    }
}

proof fn lemma_rfind_in_range(s: Seq<char>, c: char)
    ensures
        match rfind_char_spec(s, c) {
            Some(i) => 0 <= i < s.len(),
            None => true,
        },
    decreases s.len(),
{
    if s.len() > 0 && s[s.len() - 1] != c {
        lemma_rfind_in_range(s.drop_last(), c);
    }
}

/// The long-form clone options that consume a following value.
pub open spec fn long_option_with_value(a: Seq<char>) -> bool {
    ||| a == "--branch"@
    ||| a == "--config"@
    ||| a == "--depth"@
    ||| a == "--origin"@
    ||| a == "--reference"@
    ||| a == "--reference-if-able"@
    ||| a == "--separate-git-dir"@
    ||| a == "--shallow-exclude"@
    ||| a == "--shallow-since"@
    ||| a == "--template"@
    ||| a == "--upload-pack"@
    ||| a == "-u"@
    ||| a == "--jobs"@
    ||| a == "-j"@
    ||| a == "--recurse-submodules"@
}

/// The short-form clone options that consume a following value.
pub open spec fn short_option_with_value(a: Seq<char>) -> bool {
    ||| a == "-b"@
    ||| a == "-c"@
    ||| a == "-j"@
    ||| a == "-o"@
    ||| a == "-u"@
}

/// Whether a clone argument is an option that takes its value as the next
/// argument.  An inline `--option=value` form carries its own value and so
/// does not.
pub open spec fn is_option_with_value_spec(a: Seq<char>) -> bool {
    if a.len() >= 2 && a[0] == '-' && a[1] == '-' {
        &&& !(exists|j: int| 0 <= j < a.len() && a[j] == '=')
        &&& long_option_with_value(a)
    } else if a.len() == 2 && a[0] == '-' {
        short_option_with_value(a)
    } else {
        false
    }
}

/// Check if an argument is an option that takes a value, covering the common
/// clone options such as `-b`, `-c` and `--config`.
pub fn is_option_with_value(arg: &str) -> (r: bool)
    ensures
        r == is_option_with_value_spec(arg@),
{
    let n = arg.unicode_len();
    if n >= 2 && arg.get_char(0) == '-' && arg.get_char(1) == '-' {
        if contains_char(arg, '=') {
            return false;
        }
        str_eq(arg, "--branch") || str_eq(arg, "--config") || str_eq(arg, "--depth") || str_eq(
            arg,
            "--origin",
        ) || str_eq(arg, "--reference") || str_eq(arg, "--reference-if-able") || str_eq(
            arg,
            "--separate-git-dir",
        ) || str_eq(arg, "--shallow-exclude") || str_eq(arg, "--shallow-since") || str_eq(
            arg,
            "--template",
        ) || str_eq(arg, "--upload-pack") || str_eq(arg, "-u") || str_eq(arg, "--jobs") || str_eq(
            arg,
            "-j",
        ) || str_eq(arg, "--recurse-submodules")
    } else if n == 2 && arg.get_char(0) == '-' {
        str_eq(arg, "-b") || str_eq(arg, "-c") || str_eq(arg, "-j") || str_eq(arg, "-o") || str_eq(
            arg,
            "-u",
        )
    } else {
        false
    }
}

/// The positional arguments of a clone command line: everything that is not
/// an option, with `--` ending option processing and value-taking options
/// consuming the argument that follows them.
pub open spec fn positionals_spec(args: Seq<String>, after_double_dash: bool) -> Seq<Seq<char>>
    decreases args.len(),
{
    if args.len() == 0 {
        Seq::empty()
    } else {
        let a = args[0]@;
        if !after_double_dash && a == "--"@ {
            positionals_spec(args.drop_first(), true)
        } else if !after_double_dash && is_option_with_value_spec(a) {
            if args.len() == 1 {
                Seq::empty()
            } else {
                positionals_spec(args.subrange(2, args.len() as int), false)
            }
        } else if !after_double_dash && a.len() > 0 && a[0] == '-' {
            positionals_spec(args.drop_first(), false)
        } else {
            seq![a] + positionals_spec(args.drop_first(), after_double_dash)
        }
    }
}

/// The directory a clone command line puts the repository in: the second
/// positional argument when given, otherwise derived from the URL (the first
/// positional argument); `None` when there is no URL or nothing derivable.
pub open spec fn extract_clone_target_spec(args: Seq<String>) -> Option<Seq<char>> {
    let ps = positionals_spec(args, false);
    if ps.len() == 0 {
        None
    } else if ps.len() >= 2 {
        Some(ps[1])
    } else {
        derive_directory_spec(ps[0])
    }
}

/// Extract the target directory from clone command arguments: the second
/// positional argument if present, else a name derived from the URL.
pub fn extract_clone_target_directory(args: &Vec<String>) -> (r: Option<String>)
    ensures
        match r {
            Some(d) => extract_clone_target_spec(args@) == Some(d@),
            None => extract_clone_target_spec(args@) is None,
        },
{
    let n = args.len();
    let mut positional_args: Vec<String> = Vec::new();
    let mut after_double_dash = false;
    let mut i: usize = 0;
    proof {
        assert(args@.subrange(0, n as int) =~= args@);
    }
    while i < n
        invariant
            i <= n,
            n == args@.len(),
            positionals_spec(args@, false) == positional_args@.map_values(|s: String| s@)
                + positionals_spec(args@.subrange(i as int, n as int), after_double_dash),
        decreases n - i,
    {
        let ghost rest = args@.subrange(i as int, n as int);
        proof {
            assert(rest[0] == args@[i as int]);
            assert(rest.drop_first() =~= args@.subrange(i + 1, n as int));
        }
        let arg = &args[i];
        if !after_double_dash && str_eq(arg.as_str(), "--") {
            after_double_dash = true;
            i = i + 1;
            continue;
        }
        if !after_double_dash && is_option_with_value(arg.as_str()) {
            proof {
                if rest.len() > 1 {
                    assert(rest.subrange(2, rest.len() as int) =~= args@.subrange(
                        i + 2,
                        n as int,
                    ));
                }
            }
            i = i + 1;
            if i < n {
                i = i + 1;
            }
            continue;
        }
        if !after_double_dash && arg.unicode_len() > 0 && arg.as_str().get_char(0) == '-' {
            i = i + 1;
            continue;
        }
        let ghost prev = positional_args@;
        positional_args.push(arg.clone());
        proof {
            assert(positional_args@.map_values(|s: String| s@) =~= prev.map_values(
                |s: String| s@,
            ) + seq![args@[i as int]@]);
        }
        i = i + 1;
    }
    proof {
        assert(args@.subrange(n as int, n as int) =~= Seq::<String>::empty());
        assert(positionals_spec(args@, false) =~= positional_args@.map_values(|s: String| s@));
    }
    if positional_args.len() == 0 {
        return None;
    }
    if positional_args.len() >= 2 {
        return Some(positional_args[1].clone());
    }
    derive_directory_from_url(positional_args[0].as_str())
}

/// Decide, after a clone command finished, where authorship notes should be
/// fetched: nowhere when the clone failed, otherwise the clone's target
/// directory when one can be determined.
pub fn post_clone_fetch_target(clone_succeeded: bool, command_args: &Vec<String>) -> (r: Option<
    String,
>)
    ensures
        !clone_succeeded ==> r is None,
        clone_succeeded ==> match r {
            Some(d) => extract_clone_target_spec(command_args@) == Some(d@),
            None => extract_clone_target_spec(command_args@) is None,
        },
{
    if !clone_succeeded {
        return None;
    }
    extract_clone_target_directory(command_args)
}

} // verus!
