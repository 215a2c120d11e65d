//! Recognition and stripping of the two reserved control flags.
//!
//! Two argument pairs are reserved: one requests a forced server restart,
//! the other a kill-and-exit invocation.  Both are removed from the
//! argument vector before it is forwarded to the server.

use vstd::prelude::*;
use crate::strings::str_eq;
use crate::strings::views_of;

verus! {

/// Whether `s` is one of the reserved restart flags.
pub open spec fn is_restart_text(s: Seq<char>) -> bool {
    s == "-_R"@ || s == "--_RESTART"@
}

/// Whether `s` is one of the reserved kill flags.
pub open spec fn is_kill_text(s: Seq<char>) -> bool {
    s == "-_K"@ || s == "--_KILL"@
}

/// Whether `s` is any reserved control flag.
pub open spec fn is_control_text(s: Seq<char>) -> bool {
    is_restart_text(s) || is_kill_text(s)
}

/// The argument list with every reserved control flag removed, in order.
pub open spec fn spec_kept(args: Seq<Seq<char>>) -> Seq<Seq<char>>
    decreases args.len(),
{
    if args.len() == 0 {
        Seq::empty()
    } else if is_control_text(args[0]) {
        spec_kept(args.drop_first())
    } else {
        seq![args[0]] + spec_kept(args.drop_first())
    }
}

/// Whether `arg` is a reserved restart flag.
pub fn is_restart_arg(arg: &str) -> (r: bool)
    ensures
        r == is_restart_text(arg@),
{
    str_eq(arg, "-_R") || str_eq(arg, "--_RESTART")
}

/// Whether `arg` is a reserved kill flag.
pub fn is_kill_arg(arg: &str) -> (r: bool)
    ensures
        r == is_kill_text(arg@),
{
    str_eq(arg, "-_K") || str_eq(arg, "--_KILL")
}

/// The result of stripping the reserved flags from an argument vector.
pub struct StrippedArgs {
    /// The remaining arguments, in their original order.
    pub argv: Vec<String>,
    /// Whether a restart flag was present.
    pub restart: bool,
    /// Whether a kill flag was present.
    pub kill: bool,
}

/// Removes every reserved control flag from `argv` and reports which
/// kinds were seen.
pub fn strip_control_args(argv: Vec<String>) -> (r: StrippedArgs)
    ensures
        views_of(r.argv@) == spec_kept(views_of(argv@)),
        r.restart == exists|i: int|
            0 <= i < argv@.len() && is_restart_text(#[trigger] views_of(argv@)[i]),
        r.kill == exists|i: int|
            0 <= i < argv@.len() && is_kill_text(#[trigger] views_of(argv@)[i]),
{
    let ghost full: Seq<Seq<char>> = views_of(argv@);
    let mut kept: Vec<String> = Vec::new();
    let mut restart: bool = false;
    let mut kill: bool = false;
    let mut i: usize = 0;
    proof {
        assert(views_of(kept@) =~= Seq::<Seq<char>>::empty());
        assert(full.subrange(0, full.len() as int) =~= full);
        assert(Seq::<Seq<char>>::empty() + spec_kept(full) =~= spec_kept(full));
    }
    while i < argv.len()
        invariant
            i <= argv.len(),
            full == views_of(argv@),
            full.len() == argv@.len(),
            forall|j: int| 0 <= j < argv@.len() ==> #[trigger] full[j] == argv@[j]@,
            views_of(kept@) + spec_kept(full.subrange(i as int, full.len() as int)) == spec_kept(
                full,
            ),
            restart == exists|j: int| 0 <= j < i && is_restart_text(#[trigger] full[j]),
            kill == exists|j: int| 0 <= j < i && is_kill_text(#[trigger] full[j]),
        decreases argv.len() - i,
    {
        let ghost rest = full.subrange(i as int, full.len() as int);
        proof {
            assert(rest[0] == full[i as int]);
            assert(rest.drop_first() =~= full.subrange(i as int + 1, full.len() as int));
        }
        let arg = &argv[i];
        let rst = is_restart_arg(arg.as_str());
        let kl = is_kill_arg(arg.as_str());
        if rst || kl {
            restart = restart || rst;
            kill = kill || kl;
        } else {
            let ghost old_kept = views_of(kept@);
            kept.push(argv[i].clone());
            proof {
                assert(views_of(kept@) =~= old_kept + seq![full[i as int]]);
                assert(old_kept + (seq![full[i as int]] + spec_kept(
                    full.subrange(i as int + 1, full.len() as int),
                )) =~= (old_kept + seq![full[i as int]]) + spec_kept(
                    full.subrange(i as int + 1, full.len() as int),
                ));
            }
        }
        i = i + 1;
    }
    proof {
        assert(full.subrange(i as int, full.len() as int) =~= Seq::<Seq<char>>::empty());
        assert(views_of(kept@) + Seq::<Seq<char>>::empty() =~= views_of(kept@));
    }
    StrippedArgs { argv: kept, restart, kill }
}

} // verus!
