//! The arguments of `cargo clippy`: which ask for help or the version, and
//! how the rest splits between cargo and the lints.
use vstd::prelude::*;
use vstd::string::*;
use crate::text::chars_of;

verus! {

broadcast use vstd::string::group_string_axioms;

/// Whether two texts are equal.
pub fn same_text(a: &str, b: &str) -> (r: bool)
    ensures
        r == (a@ == b@),
{
    let x = chars_of(a);
    let y = chars_of(b);
    if x.len() != y.len() {
        return false;
    }
    let mut i: usize = 0;
    while i < x.len()
        invariant
            x@ == a@,
            y@ == b@,
            x@.len() == y@.len(),
            i <= x@.len(),
            forall|j: int| 0 <= j < i ==> x@[j] == y@[j],
        decreases x@.len() - i,
    {
        if x[i] != y[i] {
            return false;
        }
        i = i + 1;
    }
    proof {
        assert(a@ =~= b@);
    }
    true
}

/// Whether some argument is `long` or `short`.
pub open spec fn has_flag(args: Seq<String>, long: Seq<char>, short: Seq<char>) -> bool {
    exists|i: int| 0 <= i < args.len() && (args[i]@ == long || args[i]@ == short)
}

/// Whether some argument is `long` or `short`.
fn any_flag(args: &Vec<String>, long: &str, short: &str) -> (r: bool)
    ensures
        r == has_flag(args@, long@, short@),
{
    let mut i: usize = 0;
    while i < args.len()
        invariant
            i <= args@.len(),
            forall|j: int| 0 <= j < i ==> !(args@[j]@ == long@ || args@[j]@ == short@),
        decreases args@.len() - i,
    {
        if same_text(args[i].as_str(), long) || same_text(args[i].as_str(), short) {
            return true;
        }
        i = i + 1;
    }
    false
}

/// Whether the arguments ask for help.
pub fn wants_help(args: &Vec<String>) -> (r: bool)
    ensures
        r == has_flag(args@, "--help"@, "-h"@),
{
    any_flag(args, "--help", "-h")
}

/// Whether the arguments ask for the version.
pub fn wants_version(args: &Vec<String>) -> (r: bool)
    ensures
        r == has_flag(args@, "--version"@, "-V"@),
{
    any_flag(args, "--version", "-V")
}

/// The arguments before the first `--`, as texts.
pub open spec fn before_dashes(args: Seq<String>) -> Seq<Seq<char>>
    decreases args.len(),
{
    if args.len() == 0 || args[0]@ == "--"@ {
        Seq::empty()
    } else {
        seq![args[0]@] + before_dashes(args.skip(1))
    }
}

/// The arguments after the first `--`, each followed by the marker
/// `__CLIPPY_HACKERY__`, all run together.
pub open spec fn after_dashes(args: Seq<String>) -> Seq<char>
    decreases args.len(),
{
    if args.len() == 0 {
        Seq::empty()
    } else if args[0]@ == "--"@ {
        hackery(args.skip(1))
    } else {
        after_dashes(args.skip(1))
    }
}

/// Each text followed by the marker, run together.
pub open spec fn hackery(args: Seq<String>) -> Seq<char>
    decreases args.len(),
{
    if args.len() == 0 {
        Seq::empty()
    } else {
        args[0]@ + "__CLIPPY_HACKERY__"@ + hackery(args.skip(1))
    }
}

/// The view of a list of strings.
pub open spec fn texts(v: Seq<String>) -> Seq<Seq<char>> {
    v.map_values(|s: String| s@)
}

/// Splits the arguments given to `cargo clippy` (after the program and
/// subcommand names): those before the first `--` follow `check` as cargo's
/// arguments; those after it are marked and run together for the lints.
pub fn split_args(args: &Vec<String>) -> (r: (Vec<String>, String))
    ensures
        texts(r.0@) == seq!["check"@] + before_dashes(args@),
        r.1@ == after_dashes(args@),
{
    proof {
        reveal_strlit("__CLIPPY_HACKERY__");
    }
    let mut cargo_args: Vec<String> = Vec::new();
    cargo_args.push(String::from_str("check"));
    proof {
        assert(texts(cargo_args@) =~= seq!["check"@]);
        assert(args@.skip(0) =~= args@);
    }
    let mut i: usize = 0;
    let mut found_dashes = false;
    while i < args.len() && !found_dashes
        invariant
            i <= args@.len(),
            !found_dashes ==> texts(cargo_args@) + before_dashes(args@.skip(i as int)) == seq!["check"@]
                + before_dashes(args@),
            !found_dashes ==> after_dashes(args@.skip(i as int)) == after_dashes(args@),
            found_dashes ==> texts(cargo_args@) == seq!["check"@] + before_dashes(args@),
            found_dashes ==> after_dashes(args@) == hackery(args@.skip(i as int)),
        decreases args@.len() - i,
    {
        proof {
            assert(args@.skip(i as int).skip(1) =~= args@.skip(i + 1));
            assert(args@.skip(i as int)[0] == args@[i as int]);
        }
        if same_text(args[i].as_str(), "--") {
            found_dashes = true;
            proof {
                assert(before_dashes(args@.skip(i as int)) =~= Seq::<Seq<char>>::empty());
                assert(texts(cargo_args@) + Seq::<Seq<char>>::empty() =~= texts(cargo_args@));
            }
        } else {
            let ghost before = cargo_args@;
            cargo_args.push(args[i].clone());
            proof {
                assert(texts(cargo_args@) =~= texts(before).push(args@[i as int]@));
                assert(texts(before) + before_dashes(args@.skip(i as int)) =~= texts(cargo_args@)
                    + before_dashes(args@.skip(i + 1)));
            }
        }
        i = i + 1;
    }
    let ghost start = i;
    proof {
        if !found_dashes {
            assert(args@.skip(i as int) =~= Seq::<String>::empty());
            assert(texts(cargo_args@) + Seq::<Seq<char>>::empty() =~= texts(cargo_args@));
        }
    }
    let mut clippy_args = String::new();
    while found_dashes && i < args.len()
        invariant
            start <= i <= args@.len(),
            found_dashes ==> clippy_args@ + hackery(args@.skip(i as int)) == hackery(args@.skip(start as int)),
            found_dashes ==> after_dashes(args@) == hackery(args@.skip(start as int)),
            !found_dashes ==> clippy_args@.len() == 0 && after_dashes(args@) == Seq::<char>::empty(),
        decreases args@.len() - i,
    {
        proof {
            assert(args@.skip(i as int).skip(1) =~= args@.skip(i + 1));
            assert(args@.skip(i as int)[0] == args@[i as int]);
        }
        let ghost before = clippy_args@;
        clippy_args.append(args[i].as_str());
        clippy_args.append("__CLIPPY_HACKERY__");
        proof {
            assert(before + hackery(args@.skip(i as int)) =~= clippy_args@ + hackery(args@.skip(i + 1)));
        }
        i = i + 1;
    }
    proof {
        if found_dashes {
            assert(args@.skip(i as int) =~= Seq::<String>::empty());
            assert(clippy_args@ + Seq::<char>::empty() =~= clippy_args@);
        } else {
            assert(clippy_args@ =~= Seq::<char>::empty());
        }
    }
    (cargo_args, clippy_args)
}

/// What `cargo clippy` reports when cargo ends: success, or cargo's exit
/// code (`-1` when it has none).
pub fn exit_result(success: bool, code: Option<i32>) -> (r: Result<(), i32>)
    ensures
        success ==> r == Ok::<(), i32>(()),
        !success ==> r == Err::<(), i32>(
            match code {
                Some(c) => c,
                None => -1i32,
            },
        ),
{
    if success {
        Ok(())
    } else {
        Err(
            match code {
                Some(c) => c,
                None => -1,
            },
        )
    }
}

} // verus!
