use vstd::prelude::*;

use crate::builder::BuilderView;
use crate::cost::Platform;
use crate::error::Error;
use crate::token::{lex_run, LexState, TokenError};

verus! {

/// The total cost of `args` as arguments.
pub open spec fn total_arg_cost(p: Platform, args: Seq<Seq<u8>>) -> nat
    decreases args.len(),
{
    if args.len() == 0 {
        0
    } else {
        p.arg_cost(args[0]) + total_arg_cost(p, args.drop_first())
    }
}

/// The variables that a command started from `b` sees, where `ambient` is the
/// environment of the process that starts it.
pub open spec fn effective_env(b: BuilderView, ambient: Map<Seq<u8>, Seq<u8>>) -> Map<Seq<u8>, Seq<u8>> {
    Map::new(
        |k: Seq<u8>|
            if b.env.contains_key(k) {
                b.env[k] is Some
            } else {
                !b.cleared && ambient.contains_key(k)
            },
        |k: Seq<u8>|
            if b.env.contains_key(k) {
                b.env[k]->Some_0
            } else {
                ambient[k]
            },
    )
}

/// Arguments whose costs together fit in the space left are all accepted, one
/// after the other, as long as none of them is over the single-argument ceiling
/// and the argument count allows them all.
pub proof fn lemma_args_within_budget_fit(b: BuilderView, args: Seq<Seq<u8>>)
    requires
        forall|i: int| 0 <= i < args.len() ==> b.limits.platform.arg_cost(args[i]) <= b.limits.arg_ceiling(),
        b.limits.arg_count matches Some(n) ==> b.argv.len() + args.len() <= n,
        b.arg_room(total_arg_cost(b.limits.platform, args)),
    ensures
        b.add_args(args) == Ok::<BuilderView, Error>(
            BuilderView {
                argv: b.argv + args,
                arg_size: b.arg_size + total_arg_cost(b.limits.platform, args),
                ..b
            },
        ),
    decreases args.len(),
{
    let p = b.limits.platform;
    if args.len() == 0 {
        assert(b.argv + args == b.argv);
    } else {
        let cost = p.arg_cost(args[0]);
        let next = BuilderView { argv: b.argv.push(args[0]), arg_size: b.arg_size + cost, ..b };
        assert(b.add_arg(args[0]) == Ok::<BuilderView, Error>(next));
        let rest = args.drop_first();
        assert forall|i: int| 0 <= i < rest.len() implies p.arg_cost(rest[i]) <= b.limits.arg_ceiling() by {
            assert(rest[i] == args[i + 1]);
        }
        lemma_args_within_budget_fit(next, rest);
        assert(next.argv + rest == b.argv + args);
    }
}

/// Removing a variable that is neither tracked nor inherited changes neither
/// the arguments, nor the costs, nor the environment that the program sees;
/// with a cleared environment it changes nothing at all.
pub proof fn lemma_remove_unknown_env_is_no_op(b: BuilderView, key: Seq<u8>, ambient: Map<Seq<u8>, Seq<u8>>)
    requires
        !b.env.contains_key(key),
        !ambient.contains_key(key),
    ensures
        b.remove_env(key, None).limits == b.limits,
        b.remove_env(key, None).argv == b.argv,
        b.remove_env(key, None).arg_size == b.arg_size,
        b.remove_env(key, None).env_size == b.env_size,
        b.remove_env(key, None).cleared == b.cleared,
        effective_env(b.remove_env(key, None), ambient) == effective_env(b, ambient),
        b.cleared ==> b.remove_env(key, None) == b,
{
    let r = b.remove_env(key, None);
    if b.cleared {
        assert(b.env.remove(key) =~= b.env);
    }
    assert(effective_env(r, ambient) =~= effective_env(b, ambient));
}

/// Setting an inherited variable and then removing it leaves the command as
/// removing it alone would: the set leaves nothing behind in the accounting.
/// The inherited entry is the one that the environment cost counts.
pub proof fn lemma_set_then_remove_inherited(b: BuilderView, key: Seq<u8>, value: Seq<u8>, inherited: Seq<u8>)
    requires
        !b.env.contains_key(key),
        !b.cleared,
        b.env_size >= b.limits.platform.env_pair_cost(key, inherited),
        b.set_env(key, value, Some(inherited)) is Ok,
    ensures
        b.set_env(key, value, Some(inherited))->Ok_0.remove_env(key, Some(inherited)) == b.remove_env(key, Some(inherited)),
{
    let s = b.set_env(key, value, Some(inherited))->Ok_0;
    assert(s.env.insert(key, None) =~= b.env.insert(key, None));
}

/// An argument over the single-argument ceiling is refused as too large,
/// whatever the command already holds.
pub proof fn lemma_oversized_arg_too_large(b: BuilderView, arg: Seq<u8>)
    requires
        b.limits.platform.arg_cost(arg) > b.limits.arg_ceiling(),
    ensures
        b.add_arg(arg) == Err::<BuilderView, Error>(Error::TooLarge),
        b.add_args(seq![arg]) == Err::<BuilderView, Error>(Error::TooLarge),
{
}

/// Once a single quote is open and no closing quote follows before the end
/// of the stream, splitting fails as malformed input; no token is cut short.
pub proof fn lemma_unclosed_single_quote_fails(s: LexState, rest: Seq<u8>)
    requires
        s.single,
        !s.escape,
        forall|i: int| 0 <= i < rest.len() ==> rest[i] != 0x27,
    ensures
        lex_run(s, rest) == Err::<Seq<Seq<u8>>, TokenError>(TokenError::UnterminatedQuote),
    decreases rest.len(),
{
    if rest.len() > 0 {
        let tail = rest.drop_first();
        assert forall|i: int| 0 <= i < tail.len() implies tail[i] != 0x27 by {
            assert(tail[i] == rest[i + 1]);
        }
        if rest[0] != 0x0a {
            lemma_unclosed_single_quote_fails(LexState { item: s.item.push(rest[0]), ..s }, tail);
        }
    }
}

} // verus!
