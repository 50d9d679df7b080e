use vstd::prelude::*;
use vstd::utf8::valid_utf8;
use crate::engine::{all_text, line_outcome};
use crate::runtime::{builtin_named, command_name, Builtin};
use crate::status::ShellError;
use crate::words::{is_word, join, lemma_words_join};
use crate::MAX_DEPTH;

verus! {

/// `k` copies of the word `command`.
pub open spec fn commands(k: nat) -> Seq<Seq<u8>> {
    Seq::new(k, |i: int| command_name())
}

proof fn lemma_command_name_is_text_word()
    ensures
        is_word(command_name()),
        valid_utf8(command_name()),
{
    reveal_with_fuel(valid_utf8, 8);
    assert(valid_utf8(command_name().skip(7)));
}

/// Prefixing a line of well-formed words with `command` gives what the line
/// gives one level deeper; and where the line names no builtin, what the line
/// gives at the same depth: the line's own words, as the process to start.
pub proof fn lemma_command_prefix(ws: Seq<Seq<u8>>, depth: nat, reg: Seq<(Seq<u8>, Builtin)>)
    requires
        forall|i: int| 0 <= i < ws.len() ==> is_word(#[trigger] ws[i]),
        all_text(ws),
        builtin_named(reg, command_name()) == Some(Builtin::Command),
        depth < MAX_DEPTH,
    ensures
        line_outcome(join(seq![command_name()] + ws), depth, reg) == line_outcome(
            join(ws),
            depth + 1,
            reg,
        ),
        ws.len() > 0 && builtin_named(reg, ws[0]) is None ==> {
            &&& line_outcome(join(seq![command_name()] + ws), depth, reg) == line_outcome(
                join(ws),
                depth,
                reg,
            )
            &&& line_outcome(join(ws), depth, reg) == Ok::<Seq<Seq<u8>>, ShellError>(ws)
        },
{
    lemma_command_name_is_text_word();
    let full = seq![command_name()] + ws;
    assert(forall|i: int| 0 <= i < full.len() ==> is_word(#[trigger] full[i])) by {
        assert forall|i: int| 0 <= i < full.len() implies is_word(#[trigger] full[i]) by {
            if i > 0 {
                assert(full[i] == ws[i - 1]);
            }
        }
    }
    lemma_words_join(full);
    lemma_words_join(ws);
    assert(full.skip(1) =~= ws);
}

/// A line led by `k` copies of `command` runs its remaining words `k` levels
/// deeper while the nesting stays within `MAX_DEPTH`, and fails with
/// `RecursionLimitExceeded` once it would pass it.
pub proof fn lemma_nesting_bound(k: nat, ws: Seq<Seq<u8>>, depth: nat, reg: Seq<(Seq<u8>, Builtin)>)
    requires
        forall|i: int| 0 <= i < ws.len() ==> is_word(#[trigger] ws[i]),
        all_text(ws),
        builtin_named(reg, command_name()) == Some(Builtin::Command),
        depth <= MAX_DEPTH,
    ensures
        depth + k <= MAX_DEPTH ==> line_outcome(join(commands(k) + ws), depth, reg)
            == line_outcome(join(ws), depth + k, reg),
        depth + k > MAX_DEPTH ==> line_outcome(join(commands(k) + ws), depth, reg) == Err::<
            Seq<Seq<u8>>,
            ShellError,
        >(ShellError::RecursionLimitExceeded),
    decreases k,
{
    lemma_command_name_is_text_word();
    if k == 0 {
        assert(commands(0) + ws =~= ws);
    } else {
        let rest = commands((k - 1) as nat) + ws;
        assert(commands(k) + ws =~= seq![command_name()] + rest);
        assert(forall|i: int| 0 <= i < rest.len() ==> is_word(#[trigger] rest[i])) by {
            assert forall|i: int| 0 <= i < rest.len() implies is_word(#[trigger] rest[i]) by {
                if i >= k - 1 {
                    assert(rest[i] == ws[i - (k - 1)]);
                }
            }
        }
        assert(all_text(rest)) by {
            assert forall|i: int| 0 <= i < rest.len() implies valid_utf8(#[trigger] rest[i]) by {
                if i >= k - 1 {
                    assert(rest[i] == ws[i - (k - 1)]);
                }
            }
        }
        if depth < MAX_DEPTH {
            lemma_command_prefix(rest, depth, reg);
            lemma_nesting_bound((k - 1) as nat, ws, depth + 1, reg);
        } else {
            let full = seq![command_name()] + rest;
            assert(forall|i: int| 0 <= i < full.len() ==> is_word(#[trigger] full[i])) by {
                assert forall|i: int| 0 <= i < full.len() implies is_word(#[trigger] full[i]) by {
                    if i > 0 {
                        assert(full[i] == rest[i - 1]);
                    }
                }
            }
            lemma_words_join(full);
        }
    }
}

} // verus!
