//! Naming of release artifacts: target selection from build arguments,
//! platform and architecture names, and file names.
use vstd::prelude::*;
use crate::text::{chars_of, push_str, str_eq, string_of, string_of_chars};

verus! {

/// Whether `s` begins with `p`.
pub open spec fn starts_with(s: Seq<char>, p: Seq<char>) -> bool {
    p.len() <= s.len() && s.take(p.len() as int) == p
}

/// The value of a command-line option: the argument after the first
/// occurrence of `flag` (`None` if it is last), or the text after `flag=`,
/// whichever comes first.
pub open spec fn spec_option_value(args: Seq<Seq<char>>, flag: Seq<char>) -> Option<Seq<char>>
    decreases args.len(),
{
    if args.len() == 0 {
        None
    } else if args[0] == flag {
        if args.len() >= 2 {
            Some(args[1])
        } else {
            None
        }
    } else if starts_with(args[0], flag.push('=')) {
        Some(args[0].skip(flag.len() + 1int))
    } else {
        spec_option_value(args.drop_first(), flag)
    }
}

pub open spec fn arg_views(args: Seq<String>) -> Seq<Seq<char>> {
    args.map_values(|a: String| a@)
}

fn has_prefix(s: &Vec<char>, p: &Vec<char>) -> (r: bool)
    ensures
        r == starts_with(s@, p@),
{
    if p.len() > s.len() {
        return false;
    }
    let mut i: usize = 0;
    while i < p.len()
        invariant
            p.len() <= s.len(),
            i <= p.len(),
            forall|j: int| 0 <= j < i ==> s@[j] == p@[j],
        decreases p.len() - i,
    {
        if s[i] != p[i] {
            proof {
                assert(s@.take(p.len() as int)[i as int] != p@[i as int]);
            }
            return false;
        }
        i = i + 1;
    }
    proof {
        assert(s@.take(p.len() as int) =~= p@);
    }
    true
}

fn option_value(args: &Vec<String>, flag: &str) -> (r: Option<String>)
    ensures
        match r {
            Some(v) => spec_option_value(arg_views(args@), flag@) == Some(v@),
            None => spec_option_value(arg_views(args@), flag@) == None::<Seq<char>>,
        },
{
    let flag_chars = chars_of(flag);
    let mut with_eq = flag_chars.clone();
    with_eq.push('=');
    let ghost all = arg_views(args@);
    let mut i: usize = 0;
    proof {
        assert(all.skip(0) =~= all);
    }
    while i < args.len()
        invariant
            all == arg_views(args@),
            flag_chars@ == flag@,
            with_eq@ == flag@.push('='),
            i <= args.len(),
            spec_option_value(all, flag@) == spec_option_value(all.skip(i as int), flag@),
        decreases args.len() - i,
    {
        let arg = &args[i];
        let ghost rest = all.skip(i as int);
        proof {
            assert(rest[0] == arg@);
            assert(rest.drop_first() =~= all.skip(i + 1));
        }
        if str_eq(arg.as_str(), flag) {
            if i + 1 < args.len() {
                proof {
                    assert(rest[1] == args@[i + 1]@);
                }
                return Some(args[i + 1].clone());
            }
            return None;
        }
        let arg_chars = chars_of(arg.as_str());
        if has_prefix(&arg_chars, &with_eq) {
            let mut value: Vec<char> = Vec::new();
            let mut k: usize = with_eq.len();
            while k < arg_chars.len()
                invariant
                    with_eq.len() <= k <= arg_chars.len(),
                    value@ == arg_chars@.subrange(with_eq.len() as int, k as int),
                decreases arg_chars.len() - k,
            {
                value.push(arg_chars[k]);
                proof {
                    assert(arg_chars@.subrange(with_eq.len() as int, k + 1) =~= arg_chars@.subrange(with_eq.len() as int, k as int).push(arg_chars@[k as int]));
                }
                k = k + 1;
            }
            proof {
                assert(value@ =~= arg@.skip(flag@.len() + 1int));
            }
            return Some(string_of_chars(value.as_slice()));
        }
        i = i + 1;
    }
    proof {
        assert(all.skip(i as int).len() == 0);
    }
    None
}

/// The target triple given to `cargo build` (`--target X` or `--target=X`).
pub fn extract_target_triple(args: &Vec<String>) -> (r: Option<String>)
    ensures
        match r {
            Some(v) => spec_option_value(arg_views(args@), "--target"@) == Some(v@),
            None => spec_option_value(arg_views(args@), "--target"@) == None::<Seq<char>>,
        },
{
    option_value(args, "--target")
}

/// The target directory given to `cargo build` (`--target-dir X` or `--target-dir=X`).
pub fn extract_target_dir(args: &Vec<String>) -> (r: Option<String>)
    ensures
        match r {
            Some(v) => spec_option_value(arg_views(args@), "--target-dir"@) == Some(v@),
            None => spec_option_value(arg_views(args@), "--target-dir"@) == None::<Seq<char>>,
        },
{
    option_value(args, "--target-dir")
}

/// `.exe` for Windows, nothing elsewhere.
pub fn binary_extension(platform: &str) -> (r: &'static str)
    ensures
        r@ == (if platform@ == "windows"@ { ".exe"@ } else { ""@ }),
{
    if str_eq(platform, "windows") {
        ".exe"
    } else {
        ""
    }
}

/// Whether `p` occurs in `s`.
pub open spec fn contains_text(s: Seq<char>, p: Seq<char>) -> bool {
    exists|i: int| 0 <= i && i + p.len() <= s.len() && #[trigger] s.subrange(i, i + p.len()) == p
}

/// `s` cut at every `sep` (an empty `s` gives one empty piece).
pub open spec fn split_on(s: Seq<char>, sep: char) -> Seq<Seq<char>>
    decreases s.len(),
{
    if s.len() == 0 {
        seq![Seq::empty()]
    } else {
        let rest = split_on(s.drop_last(), sep);
        if s.last() == sep {
            rest.push(Seq::empty())
        } else {
            rest.update(rest.len() - 1, rest.last().push(s.last()))
        }
    }
}

proof fn lemma_split_nonempty(s: Seq<char>, sep: char)
    ensures
        split_on(s, sep).len() >= 1,
    decreases s.len(),
{
    if s.len() > 0 {
        lemma_split_nonempty(s.drop_last(), sep);
    }
}

fn contains_chars(s: &Vec<char>, p: &str) -> (r: bool)
    ensures
        r == contains_text(s@, p@),
{
    let pc = chars_of(p);
    if pc.len() > s.len() {
        return false;
    }
    let mut i: usize = 0;
    while i <= s.len() - pc.len()
        invariant
            pc@ == p@,
            pc.len() <= s.len(),
            i <= s.len() - pc.len() + 1,
            forall|k: int| 0 <= k < i ==> #[trigger] s@.subrange(k, k + pc.len()) != pc@,
        decreases s.len() - pc.len() + 1 - i,
    {
        let mut j: usize = 0;
        let mut same = true;
        while j < pc.len()
            invariant
                pc.len() <= s.len(),
                i + pc.len() <= s.len(),
                j <= pc.len(),
                same == forall|m: int| 0 <= m < j ==> s@[i + m] == pc@[m],
            decreases pc.len() - j,
        {
            if s[i + j] != pc[j] {
                same = false;
            }
            j = j + 1;
        }
        if same {
            proof {
                assert(s@.subrange(i as int, i + pc.len()) =~= pc@);
            }
            return true;
        }
        proof {
            let m = choose|m: int| 0 <= m < pc.len() && s@[i + m] != pc@[m];
            assert(s@.subrange(i as int, i + pc.len())[m] != pc@[m]);
        }
        i = i + 1;
    }
    false
}

/// The pieces of `s` cut at `sep`.
fn split_chars(s: &Vec<char>, sep: char) -> (r: Vec<Vec<char>>)
    ensures
        r@.map_values(|v: Vec<char>| v@) == split_on(s@, sep),
{
    let mut done: Vec<Vec<char>> = Vec::new();
    let mut cur: Vec<char> = Vec::new();
    let mut i: usize = 0;
    proof {
        assert(s@.take(0) =~= Seq::<char>::empty());
        assert(done@.map_values(|v: Vec<char>| v@).push(cur@) =~= split_on(s@.take(0), sep));
    }
    while i < s.len()
        invariant
            i <= s.len(),
            done@.map_values(|v: Vec<char>| v@).push(cur@) == split_on(s@.take(i as int), sep),
        decreases s.len() - i,
    {
        let c = s[i];
        let ghost before = done@.map_values(|v: Vec<char>| v@);
        let ghost cur_before = cur@;
        proof {
            assert(s@.take(i + 1).drop_last() =~= s@.take(i as int));
            assert(s@.take(i + 1).last() == c);
        }
        if c == sep {
            let finished = cur;
            done.push(finished);
            cur = Vec::new();
            proof {
                assert(done@.map_values(|v: Vec<char>| v@) =~= before.push(cur_before));
                assert(done@.map_values(|v: Vec<char>| v@).push(cur@) =~= split_on(s@.take(i + 1), sep));
            }
        } else {
            cur.push(c);
            proof {
                assert(done@.map_values(|v: Vec<char>| v@) =~= before);
                assert(done@.map_values(|v: Vec<char>| v@).push(cur@) =~= split_on(s@.take(i + 1), sep));
            }
        }
        i = i + 1;
    }
    let ghost before = done@.map_values(|v: Vec<char>| v@);
    let ghost cur_v = cur@;
    done.push(cur);
    proof {
        assert(s@.take(i as int) =~= s@);
        assert(done@.map_values(|v: Vec<char>| v@) =~= before.push(cur_v));
    }
    done
}

/// The platform name of a target triple.
pub open spec fn spec_triple_platform(triple: Seq<char>) -> Seq<char> {
    if contains_text(triple, "windows"@) {
        "windows"@
    } else if contains_text(triple, "linux"@) {
        "linux"@
    } else if contains_text(triple, "darwin"@) {
        "macos"@
    } else if split_on(triple, '-').len() > 2 {
        split_on(triple, '-')[2]
    } else {
        "unknown"@
    }
}

/// The short architecture name of a triple's first field.
pub open spec fn spec_triple_arch(raw: Seq<char>) -> Seq<char> {
    if raw == "x86_64"@ {
        "x64"@
    } else if raw == "aarch64"@ {
        "arm64"@
    } else if raw == "i686"@ {
        "x86"@
    } else {
        raw
    }
}

/// The short architecture name of the host's architecture.
pub open spec fn spec_host_arch(arch: Seq<char>) -> Seq<char> {
    if arch == "x86_64"@ {
        "x64"@
    } else if arch == "aarch64"@ {
        "arm64"@
    } else {
        arch
    }
}

/// Platform and architecture names for the artifacts: from the target
/// triple when one was given, else from the host's OS and architecture.
pub fn platform_and_arch(target_triple: Option<&str>, host_os: &str, host_arch: &str) -> (r: (
    String,
    String,
))
    ensures
        match target_triple {
            None => r.0@ == host_os@ && r.1@ == spec_host_arch(host_arch@),
            Some(t) => r.0@ == spec_triple_platform(t@) && r.1@ == spec_triple_arch(
                split_on(t@, '-')[0],
            ),
        },
{
    let triple = match target_triple {
        None => {
            let arch = if str_eq(host_arch, "x86_64") {
                string_of("x64")
            } else if str_eq(host_arch, "aarch64") {
                string_of("arm64")
            } else {
                string_of(host_arch)
            };
            return (string_of(host_os), arch);
        },
        Some(t) => t,
    };
    let cs = chars_of(triple);
    let fields = split_chars(&cs, '-');
    proof {
        lemma_split_nonempty(triple@, '-');
        assert(fields@.map_values(|v: Vec<char>| v@).len() == fields.len());
    }
    let platform = if contains_chars(&cs, "windows") {
        string_of("windows")
    } else if contains_chars(&cs, "linux") {
        string_of("linux")
    } else if contains_chars(&cs, "darwin") {
        string_of("macos")
    } else if fields.len() > 2 {
        proof {
            assert(fields@.map_values(|v: Vec<char>| v@)[2] == fields@[2]@);
        }
        string_of_chars(fields[2].as_slice())
    } else {
        string_of("unknown")
    };
    let raw = string_of_chars(fields[0].as_slice());
    proof {
        assert(fields@.map_values(|v: Vec<char>| v@)[0] == fields@[0]@);
    }
    let arch = if str_eq(raw.as_str(), "x86_64") {
        string_of("x64")
    } else if str_eq(raw.as_str(), "aarch64") {
        string_of("arm64")
    } else if str_eq(raw.as_str(), "i686") {
        string_of("x86")
    } else {
        raw
    };
    (platform, arch)
}

/// `{app}-{kind}-v{version}-{platform}-{arch}{ext}`.
pub open spec fn spec_artifact_name(
    app: Seq<char>,
    kind: Seq<char>,
    version: Seq<char>,
    platform: Seq<char>,
    arch: Seq<char>,
    ext: Seq<char>,
) -> Seq<char> {
    app + "-"@ + kind + "-v"@ + version + "-"@ + platform + "-"@ + arch + ext
}

/// The file name of a packaged binary (see `spec_artifact_name`).
pub fn artifact_name(
    app: &str,
    kind: &str,
    version: &str,
    platform: &str,
    arch: &str,
    ext: &str,
) -> (r: String)
    ensures
        r@ == spec_artifact_name(app@, kind@, version@, platform@, arch@, ext@),
{
    let mut s = String::new();
    push_str(&mut s, app);
    push_str(&mut s, "-");
    push_str(&mut s, kind);
    push_str(&mut s, "-v");
    push_str(&mut s, version);
    push_str(&mut s, "-");
    push_str(&mut s, platform);
    push_str(&mut s, "-");
    push_str(&mut s, arch);
    push_str(&mut s, ext);
    proof {
        assert(s@ =~= spec_artifact_name(app@, kind@, version@, platform@, arch@, ext@));
    }
    s
}

} // verus!
