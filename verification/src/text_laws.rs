//! What holds of strings and lists, of versions, of the command line and of what is
//! displayed.

use vstd::prelude::*;
use crate::display::display_bytes;
use crate::options::private_key_option;
use crate::protocol::{alias_views, Alias};
use crate::text::{at_or_after, optional_text, texts, Text};
use crate::turn::{action_views, result_view, Action, ReceiveError, Turn, TurnView};

verus! {

/// A list of strings is seen as a list of what each holds, in order, and an
/// optional string as what it holds, if it is there.
pub proof fn law_strings_seen(list: Seq<String>, text: String)
    ensures
        texts(list).len() == list.len(),
        forall|i: int| 0 <= i < list.len() ==> #[trigger] texts(list)[i] == list[i]@,
        optional_text(Some(text)) == Some(text@),
        optional_text(None) is None,
{
}

/// Lists of actions and of alias entries are seen as lists of what each holds, in
/// order, and a result as its turn or its error.
pub proof fn law_turns_seen(actions: Seq<Action>, aliases: Seq<Alias>, turn: Turn, error: ReceiveError)
    ensures
        action_views(actions).len() == actions.len(),
        forall|i: int| 0 <= i < actions.len() ==> #[trigger] action_views(actions)[i] == actions[i]@,
        alias_views(aliases).len() == aliases.len(),
        forall|i: int| 0 <= i < aliases.len() ==> #[trigger] alias_views(aliases)[i] == aliases[i]@,
        turn@.actions == action_views(turn.actions@),
        turn@.next == turn.next@,
        result_view(Ok(turn)) == Ok::<TurnView, ReceiveError>(turn@),
        result_view(Err(error)) == Err::<TurnView, ReceiveError>(error),
{
}

/// What two versions begin with alike makes no difference to their order.
pub proof fn law_common_start(start: Text, a: Text, b: Text)
    ensures
        at_or_after(start + a, start + b) == at_or_after(a, b),
    decreases start.len(),
{
    if start.len() == 0 {
        assert(start + a =~= a);
        assert(start + b =~= b);
    } else {
        law_common_start(start.drop_first(), a, b);
        assert((start + a).drop_first() =~= start.drop_first() + a);
        assert((start + b).drop_first() =~= start.drop_first() + b);
    }
}

/// Where two versions begin differently, their first characters decide; an empty
/// version stands before every other one.
pub proof fn law_first_difference(a: Text, b: Text)
    ensures
        a.len() > 0 && b.len() > 0 && a[0] != b[0] ==> (at_or_after(a, b) <==> a[0] > b[0]),
        b.len() == 0 ==> at_or_after(a, b),
        a.len() == 0 && b.len() > 0 ==> !at_or_after(a, b),
{
}

/// A version that is at or after a second one, which is at or after a third, is
/// at or after the third.
pub proof fn law_order_transitive(a: Text, b: Text, c: Text)
    requires
        at_or_after(a, b),
        at_or_after(b, c),
    ensures
        at_or_after(a, c),
    decreases a.len(),
{
    if a.len() > 0 && b.len() > 0 && c.len() > 0 && a[0] == b[0] && b[0] == c[0] {
        law_order_transitive(a.drop_first(), b.drop_first(), c.drop_first());
    }
}

/// Words in front of the first option make no difference to a command line.
pub proof fn law_words_before_option(words: Seq<Text>, args: Seq<Text>)
    requires
        forall|i: int| 0 <= i < words.len() ==> #[trigger] words[i] != "--private-key"@,
    ensures
        private_key_option(words + args) == private_key_option(args),
    decreases words.len(),
{
    if words.len() == 0 {
        assert(words + args =~= args);
    } else {
        let all = words + args;
        let rest = words.skip(1);
        assert forall|i: int| 0 <= i < rest.len() implies #[trigger] rest[i]
            != "--private-key"@ by {
            assert(rest[i] == words[i + 1]);
        }
        law_words_before_option(rest, args);
        assert(all.skip(1) =~= rest + args);
        assert(all[0] == words[0]);
        if all.len() < 2 {
            assert(args.len() == 0);
        }
    }
}

/// The word behind an option is its value, whatever it is. The last option that
/// has a value decides.
pub proof fn law_option_value(key: Text, args: Seq<Text>)
    ensures
        private_key_option(seq!["--private-key"@, key] + args) == Some(
            match private_key_option(args) {
                Some(later) => later,
                None => key,
            },
        ),
{
    let all = seq!["--private-key"@, key] + args;
    assert(all.skip(2) =~= args);
    assert(all[0] == "--private-key"@);
    assert(all[1] == key);
}

/// There is a key if and only if an option stands anywhere but at the end, and
/// then the key is the word behind some option.
pub proof fn law_option_present(args: Seq<Text>)
    ensures
        private_key_option(args) is Some <==> exists|i: int|
            0 <= i < args.len() - 1 && #[trigger] args[i] == "--private-key"@,
        private_key_option(args) matches Some(key) ==> exists|i: int|
            0 <= i < args.len() - 1 && #[trigger] args[i] == "--private-key"@ && args[i + 1] == key,
    decreases args.len(),
{
    if args.len() >= 2 {
        let step: int = if args[0] == "--private-key"@ {
            2
        } else {
            1
        };
        let rest = args.skip(step);
        law_option_present(rest);
        if let Some(key) = private_key_option(rest) {
            let i = choose|i: int|
                0 <= i < rest.len() - 1 && #[trigger] rest[i] == "--private-key"@ && rest[i + 1]
                    == key;
            assert(args[i + step] == rest[i]);
            assert(args[i + step + 1] == rest[i + 1]);
        }
        if step == 1 && (exists|i: int|
            0 <= i < args.len() - 1 && #[trigger] args[i] == "--private-key"@) {
            let i = choose|i: int|
                0 <= i < args.len() - 1 && #[trigger] args[i] == "--private-key"@;
            assert(rest[i - 1] == args[i]);
        }
    }
}

/// One text behind another is displayed as the one behind the other.
pub proof fn law_display_parts(first: Text, second: Text)
    ensures
        display_bytes(first + second) == display_bytes(first).drop_last() + display_bytes(second),
    decreases second.len(),
{
    let keep = |c: char| (c as u32) < 0x80;
    reveal(Seq::filter);
    if second.len() == 0 {
        assert(first + second =~= first);
    } else {
        let start = second.drop_last();
        law_display_parts(first, start);
        assert((first + second).drop_last() =~= first + start);
        assert((first + second).last() == second.last());
        if keep(second.last()) {
            assert(display_bytes(second) =~= display_bytes(start).drop_last() + seq![
                second.last() as u8,
                0u8,
            ]);
            assert(display_bytes(first + second) =~= display_bytes(first + start).drop_last()
                + seq![second.last() as u8, 0u8]);
        }
    }
    assert(display_bytes(first + second) =~= display_bytes(first).drop_last() + display_bytes(
        second,
    ));
}

/// A character is displayed by its code where it is ASCII, and left out where it
/// is not; zero ends every text.
pub proof fn law_display_character(c: char)
    ensures
        (c as u32) < 0x80 ==> display_bytes(seq![c]) == seq![c as u8, 0u8],
        (c as u32) >= 0x80 ==> display_bytes(seq![c]) == seq![0u8],
        display_bytes(Seq::empty()) == seq![0u8],
{
    reveal(Seq::filter);
    assert(seq![c].drop_last() =~= Seq::<char>::empty());
    assert(Seq::<char>::empty().filter(|c: char| (c as u32) < 0x80) =~= Seq::<char>::empty());
    assert(display_bytes(Seq::empty()) =~= seq![0u8]);
    if (c as u32) < 0x80 {
        assert(display_bytes(seq![c]) =~= seq![c as u8, 0u8]);
    } else {
        assert(display_bytes(seq![c]) =~= seq![0u8]);
    }
}

} // verus!
