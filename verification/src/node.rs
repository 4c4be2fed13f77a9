//! The node: the store and the rule by which it answers commands.

use crate::common::{
    is_valid_key, valid_key, Command, CommandHandler, CommandView, KVStoreError, Response,
    ResponseView,
};
use crate::store::Store;
use vstd::prelude::*;
use vstd::string::*;

verus! {

/// The reason given when a command names a key that is not valid.
pub open spec fn invalid_key_message() -> Seq<char> {
    "invalid key"@
}

/// The answer to `command` when the store holds `store`.
///
/// A command on a key that is not valid is refused. `Get` answers with the
/// value under the key, or `NotFound`; `Put` and `Delete` answer `Done`.
pub open spec fn answer(store: Map<Seq<char>, Seq<char>>, command: CommandView) -> ResponseView {
    if !valid_key(command.key()) {
        ResponseView::Error(invalid_key_message())
    } else {
        match command {
            CommandView::Get { key } => if store.contains_key(key) {
                ResponseView::Value(store[key])
            } else {
                ResponseView::NotFound
            },
            CommandView::Put { .. } => ResponseView::Done,
            CommandView::Delete { .. } => ResponseView::Done,
        }
    }
}

/// What the store holds after `command`, when it held `store` before.
///
/// A refused command and `Get` change nothing; `Put` sets the key to the
/// value; `Delete` removes the key.
pub open spec fn apply(store: Map<Seq<char>, Seq<char>>, command: CommandView) -> Map<
    Seq<char>,
    Seq<char>,
> {
    if !valid_key(command.key()) {
        store
    } else {
        match command {
            CommandView::Get { .. } => store,
            CommandView::Put { key, value } => store.insert(key, value),
            CommandView::Delete { key } => store.remove(key),
        }
    }
}

/// Carries out `command` on `store` and gives the answer.
pub fn dispatch(command: Command, store: &mut Store) -> (response: Response)
    ensures
        response@ == answer(old(store)@, command@),
        final(store)@ == apply(old(store)@, command@),
{
    if !is_valid_key(command.key()) {
        return Response::Error(String::from_str("invalid key"));
    }
    match command {
        Command::Get { key } => match store.get(key.as_str()) {
            Some(value) => Response::Value(value),
            None => Response::NotFound,
        },
        Command::Put { key, value } => {
            store.set(key, value);
            Response::Done
        },
        Command::Delete { key } => {
            store.delete(key.as_str());
            Response::Done
        },
    }
}

/// What the store holds after the commands of `commands`, carried out one
/// after another from `store`.
pub open spec fn apply_all(
    store: Map<Seq<char>, Seq<char>>,
    commands: Seq<CommandView>,
) -> Map<Seq<char>, Seq<char>>
    decreases commands.len(),
{
    if commands.len() == 0 {
        store
    } else {
        apply(apply_all(store, commands.drop_last()), commands.last())
    }
}

/// Every command of `commands` is a `Put` on a valid key, and no two of them
/// name the same key.
pub open spec fn puts_on_distinct_keys(commands: Seq<CommandView>) -> bool {
    &&& forall|i: int|
        0 <= i < commands.len() ==> (#[trigger] commands[i]) is Put && valid_key(
            commands[i].key(),
        )
    &&& forall|i: int, j: int|
        0 <= i < j < commands.len() ==> (#[trigger] commands[i]).key() != (
        #[trigger] commands[j]).key()
}

/// A `Put` is answered `Done`, and a `Get` of the same key right after it
/// answers with the value that was put. The key must be valid: on any other
/// key both commands are refused.
pub proof fn put_then_get_gives_value(
    store: Map<Seq<char>, Seq<char>>,
    key: Seq<char>,
    value: Seq<char>,
)
    requires
        valid_key(key),
    ensures
        answer(store, CommandView::Put { key, value }) == ResponseView::Done,
        answer(apply(store, CommandView::Put { key, value }), CommandView::Get { key })
            == ResponseView::Value(value),
{
}

/// A `Get` right after a `Delete` of the same key answers `NotFound`,
/// whether or not the key held a value before. The key must be valid.
pub proof fn delete_then_get_gives_not_found(store: Map<Seq<char>, Seq<char>>, key: Seq<char>)
    requires
        valid_key(key),
    ensures
        answer(apply(store, CommandView::Delete { key }), CommandView::Get { key })
            == ResponseView::NotFound,
{
}

/// A `Delete` given twice in a row is answered `Done` both times, and the
/// second changes nothing. The key must be valid.
pub proof fn delete_twice_is_done_twice(store: Map<Seq<char>, Seq<char>>, key: Seq<char>)
    requires
        valid_key(key),
    ensures
        answer(store, CommandView::Delete { key }) == ResponseView::Done,
        answer(apply(store, CommandView::Delete { key }), CommandView::Delete { key })
            == ResponseView::Done,
        apply(apply(store, CommandView::Delete { key }), CommandView::Delete { key }) == apply(
            store,
            CommandView::Delete { key },
        ),
{
}

/// After two `Put`s on one key, a `Get` answers with the second value. The
/// key must be valid.
pub proof fn second_put_wins(
    store: Map<Seq<char>, Seq<char>>,
    key: Seq<char>,
    first: Seq<char>,
    second: Seq<char>,
)
    requires
        valid_key(key),
    ensures
        answer(
            apply(
                apply(store, CommandView::Put { key, value: first }),
                CommandView::Put { key, value: second },
            ),
            CommandView::Get { key },
        ) == ResponseView::Value(second),
{
}

/// Leaving out the last of some `Put`s on distinct valid keys leaves `Put`s
/// on distinct valid keys.
proof fn earlier_puts_are_on_distinct_keys(commands: Seq<CommandView>)
    requires
        puts_on_distinct_keys(commands),
        commands.len() > 0,
    ensures
        puts_on_distinct_keys(commands.drop_last()),
{
    let earlier = commands.drop_last();
    assert forall|i: int| 0 <= i < earlier.len() implies earlier[i] == commands[i] by {}
}

/// `Put`s on distinct valid keys, carried out one at a time in whatever
/// order they are admitted, are all answered `Done`; afterwards a `Get`
/// of each key answers with the value put under it, and a `Get` of any
/// other key is answered as it was before.
pub proof fn puts_on_distinct_keys_are_all_kept(
    store: Map<Seq<char>, Seq<char>>,
    commands: Seq<CommandView>,
)
    requires
        puts_on_distinct_keys(commands),
    ensures
        forall|i: int, before: Map<Seq<char>, Seq<char>>|
            0 <= i < commands.len() ==> #[trigger] answer(before, commands[i])
                == ResponseView::Done,
        forall|i: int|
            0 <= i < commands.len() ==> answer(
                apply_all(store, commands),
                CommandView::Get { key: (#[trigger] commands[i]).key() },
            ) == ResponseView::Value(commands[i]->Put_value),
        forall|key: Seq<char>|
            (forall|i: int| 0 <= i < commands.len() ==> (#[trigger] commands[i]).key() != key)
                ==> answer(apply_all(store, commands), CommandView::Get { key }) == answer(
                store,
                CommandView::Get { key },
            ),
    decreases commands.len(),
{
    if commands.len() > 0 {
        let earlier = commands.drop_last();
        let n = commands.len() - 1;
        earlier_puts_are_on_distinct_keys(commands);
        puts_on_distinct_keys_are_all_kept(store, earlier);
        let before = apply_all(store, earlier);
        let after = apply_all(store, commands);
        assert forall|i: int| 0 <= i < commands.len() implies answer(
            after,
            CommandView::Get { key: (#[trigger] commands[i]).key() },
        ) == ResponseView::Value(commands[i]->Put_value) by {
            if i < n {
                assert(answer(before, CommandView::Get { key: earlier[i].key() })
                    == ResponseView::Value(earlier[i]->Put_value));
            }
        }
        assert forall|key: Seq<char>|
            (forall|i: int| 0 <= i < commands.len() ==> (#[trigger] commands[i]).key() != key)
            implies answer(after, CommandView::Get { key }) == answer(
            store,
            CommandView::Get { key },
        ) by {
            assert forall|i: int| 0 <= i < earlier.len() implies (#[trigger] earlier[i]).key()
                != key by {}
        }
    }
}

/// A node: it owns the store that all its connections share.
pub struct Node {
    store: Store,
}

impl View for Node {
    type V = Map<Seq<char>, Seq<char>>;

    closed spec fn view(&self) -> Map<Seq<char>, Seq<char>> {
        self.store@
    }
}

impl Node {
    /// A node whose store holds nothing.
    pub fn new() -> (node: Node)
        ensures
            node@ == Map::<Seq<char>, Seq<char>>::empty(),
    {
        Node { store: Store::new() }
    }
}

impl CommandHandler for Node {
    /// Answers `command` from the node's store. It never fails.
    fn handle_command(&mut self, command: Command) -> (result: Result<Response, KVStoreError>)
        ensures
            result matches Ok(response) && response@ == answer(old(self)@, command@),
            final(self)@ == apply(old(self)@, command@),
    {
        Ok(dispatch(command, &mut self.store))
    }
}

} // verus!
