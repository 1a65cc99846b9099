//! What holds of a node over any sequence of calls.

use vstd::prelude::*;
use crate::codec::{decode, encode};
use crate::laws::{law_answers_keep_lists_distinct, law_lists_stay_distinct};
use crate::model::{
    answer, fresh, lists_distinct, network_description, on_admission, on_closing, on_content,
    on_departure, on_greeting, on_input, on_keepers, on_message, on_nearest, on_network_event,
    on_user_command, republish_any, tell, transmit, whitelisting, NodeView, RepublishView,
};
use crate::protocol::{
    numbered_type, AliasView, ControlMessageView, MessageType,
};
use crate::text::Text;
use crate::turn::{ActionView, Input, NetworkEvent, ReplyView, UserCommand};
use crate::wire::{varint, LENGTH_DELIMITED, VARINT};

verus! {

/// One call of a node: the start, an input, a message that is decoded already, the
/// wish to whitelist a peer, or the answer to a question.
pub enum Step {
    Start,
    Input(Input),
    Message { sender: Text, msg: ControlMessageView, broadcasted: bool },
    Greet { peer: Text, whitelisted: Seq<Text> },
    Close { peer: Text, online: Seq<Text> },
    Depart { peer: Text, closing: bool, handed: Option<RepublishView> },
    Arrive { handed: Option<RepublishView> },
    WhitelistPeer { peer: Text },
    WhitelistNew { peer: Text, whitelisted: Seq<Text> },
    Keep { peer: Text, message: Text, closest: Seq<Text> },
    TellPeerId { peer_id: Text },
    DescribeNetwork {
        sender: Text,
        online: Seq<Text>,
        whitelisted: Seq<Text>,
        aliases: Seq<AliasView>,
    },
    Deliver { receiver: Text, content: Option<Text> },
    FetchMissed { closest: Seq<Text> },
}

/// The node after a call, and what the call has done.
pub open spec fn after_step(node: NodeView, step: Step) -> (NodeView, Seq<ActionView>) {
    match step {
        Step::Start => (node, seq![ActionView::Display("Initializing"@)]),
        Step::Input(input) => (
            on_input(node, input).0,
            match on_input(node, input).1 {
                Ok(turn) => turn.actions,
                Err(_) => seq![],
            },
        ),
        Step::Message { sender, msg, broadcasted } => (
            on_message(node, sender, msg, broadcasted).0,
            on_message(node, sender, msg, broadcasted).1.actions,
        ),
        Step::Greet { peer, whitelisted } => (
            on_greeting(node, peer, whitelisted).0,
            on_greeting(node, peer, whitelisted).1.actions,
        ),
        Step::Close { peer, online } => (
            on_closing(node, peer, online).0,
            on_closing(node, peer, online).1.actions,
        ),
        Step::Depart { peer, closing, handed } => (
            on_departure(node, peer, closing, handed).0,
            on_departure(node, peer, closing, handed).1.actions,
        ),
        Step::Arrive { handed } => (node, republish_any(handed)),
        Step::WhitelistPeer { peer } => (node, whitelisting(node, peer)),
        Step::WhitelistNew { peer, whitelisted } => (
            node,
            on_admission(node, peer, whitelisted).actions,
        ),
        Step::Keep { peer, message, closest } => (node, on_keepers(node, peer, message, closest)),
        Step::TellPeerId { peer_id } => (node, answer(ReplyView::Text(peer_id)).actions),
        Step::DescribeNetwork { sender, online, whitelisted, aliases } => (
            node,
            network_description(node, sender, online, whitelisted, aliases).actions,
        ),
        Step::Deliver { receiver, content } => (node, on_content(receiver, content).actions),
        Step::FetchMissed { closest } => (node, on_nearest(node, closest).actions),
    }
}

/// The node after a sequence of calls, and all that they have done, in order.
pub open spec fn after_steps(node: NodeView, steps: Seq<Step>) -> (NodeView, Seq<ActionView>)
    decreases steps.len(),
{
    if steps.len() == 0 {
        (node, seq![])
    } else {
        let (before, done) = after_steps(node, steps.drop_last());
        let (next, actions) = after_step(before, steps.last());
        (next, done + actions)
    }
}

/// Whether an action transmits a request for a program.
#[verifier::opaque]
pub open spec fn requests_upgrade(action: ActionView) -> bool {
    action matches ActionView::Transmit { data, .. } && exists|msg: ControlMessageView|
        #![trigger encode(msg)]
        data == encode(msg) && numbered_type(msg.message_type) == Some(MessageType::RequestUpgrade)
}

/// How many requests for a program are among the actions.
pub open spec fn upgrade_requests(actions: Seq<ActionView>) -> nat
    decreases actions.len(),
{
    if actions.len() == 0 {
        0
    } else {
        upgrade_requests(actions.drop_last()) + if requests_upgrade(actions.last()) {
            1nat
        } else {
            0nat
        }
    }
}

/// The encoding of a message of known type begins with that type.
proof fn lemma_type_shows(msg: ControlMessageView)
    requires
        numbered_type(msg.message_type) is Some,
    ensures
        msg.message_type != 0 ==> encode(msg).len() >= 2 && encode(msg)[0] == 8 && encode(msg)[1]
            == msg.message_type,
        msg.message_type == 0 && encode(msg).len() > 0 ==> encode(msg)[0] != 8,
{
    assert(varint(8) =~= seq![8u8]);
    assert(varint(18) =~= seq![18u8]);
    assert(varint(26) =~= seq![26u8]);
    assert(varint(34) =~= seq![34u8]);
    assert(crate::wire::key(1, VARINT) =~= seq![8u8]);
    assert(crate::wire::key(2, LENGTH_DELIMITED) =~= seq![18u8]);
    assert(crate::wire::key(3, LENGTH_DELIMITED) =~= seq![26u8]);
    assert(crate::wire::key(4, LENGTH_DELIMITED) =~= seq![34u8]);
    assert(varint(msg.message_type as nat) =~= seq![msg.message_type as u8]);
}

/// A message of another type is no request for a program.
proof fn lemma_no_request(msg: ControlMessageView, target: Option<Text>)
    requires
        numbered_type(msg.message_type) is Some,
        numbered_type(msg.message_type) != Some(MessageType::RequestUpgrade),
    ensures
        !requests_upgrade(transmit(msg, target)),
{
    reveal(requests_upgrade);
    let data = encode(msg);
    lemma_type_shows(msg);
    assert forall|other: ControlMessageView|
        #![trigger encode(other)]
        numbered_type(other.message_type) == Some(MessageType::RequestUpgrade) implies data
        != encode(other) by {
        lemma_type_shows(other);
    }
}

/// Whether an action is neither a request for a program nor an offer to serve one.
pub open spec fn leaves_upgrades(action: ActionView) -> bool {
    !requests_upgrade(action) && action != ActionView::ServeBinaryOnce
}

proof fn lemma_no_requests_count(actions: Seq<ActionView>)
    requires
        forall|i: int| 0 <= i < actions.len() ==> !requests_upgrade(#[trigger] actions[i]),
    ensures
        upgrade_requests(actions) == 0,
    decreases actions.len(),
{
    if actions.len() > 0 {
        let start = actions.drop_last();
        assert forall|i: int| 0 <= i < start.len() implies !requests_upgrade(
            #[trigger] start[i],
        ) by {
            assert(start[i] == actions[i]);
        }
        lemma_no_requests_count(start);
    }
}

proof fn lemma_requests_add(first: Seq<ActionView>, second: Seq<ActionView>)
    ensures
        upgrade_requests(first + second) == upgrade_requests(first) + upgrade_requests(second),
    decreases second.len(),
{
    if second.len() == 0 {
        assert(first + second =~= first);
    } else {
        lemma_requests_add(first, second.drop_last());
        assert((first + second).drop_last() =~= first + second.drop_last());
    }
}

/// All messages but a request for a program leave upgrades alone.
proof fn lemma_other_messages()
    ensures
        forall|msg: ControlMessageView, target: Option<Text>|
            numbered_type(msg.message_type) is Some && numbered_type(msg.message_type) != Some(
                MessageType::RequestUpgrade,
            ) ==> leaves_upgrades(#[trigger] transmit(msg, target)),
{
    assert forall|msg: ControlMessageView, target: Option<Text>|
        numbered_type(msg.message_type) is Some && numbered_type(msg.message_type) != Some(
            MessageType::RequestUpgrade,
        ) implies leaves_upgrades(#[trigger] transmit(msg, target)) by {
        lemma_no_request(msg, target);
    }
}

/// How a call that leads from `node` to `next` deals with upgrades. It sends a
/// request for a program exactly where it sets the flag, and then does nothing
/// else. Where the flag is set already, it stays, and the call neither asks for a
/// program nor serves one.
pub open spec fn upgrade_rule(node: NodeView, next: NodeView, actions: Seq<ActionView>) -> bool {
    &&& node.upgrade_in_progress ==> next.upgrade_in_progress
    &&& !node.upgrade_in_progress && next.upgrade_in_progress ==> actions.len() == 1
        && requests_upgrade(actions[0])
    &&& node.upgrade_in_progress == next.upgrade_in_progress ==> forall|i: int|
        0 <= i < actions.len() ==> !requests_upgrade(#[trigger] actions[i])
    &&& node.upgrade_in_progress ==> forall|i: int|
        0 <= i < actions.len() ==> leaves_upgrades(#[trigger] actions[i])
}

proof fn lemma_message_upgrade(
    node: NodeView,
    sender: Text,
    msg: ControlMessageView,
    broadcasted: bool,
)
    ensures
        ({
            let (next, turn) = on_message(node, sender, msg, broadcasted);
            upgrade_rule(node, next, turn.actions)
        }),
{
    let request = tell(MessageType::RequestUpgrade, Seq::empty(), Some(sender));
    assert(requests_upgrade(request)) by {
        reveal(requests_upgrade);
    }
    lemma_other_messages();
    lemma_only_messages_request();
}

proof fn lemma_only_messages_request()
    ensures
        forall|action: ActionView|
            !(action is Transmit) ==> !(#[trigger] requests_upgrade(action)),
{
    reveal(requests_upgrade);
}

proof fn lemma_event_upgrade(node: NodeView, event: NetworkEvent)
    ensures
        ({
            let (next, turn) = on_network_event(node, event);
            upgrade_rule(node, next, turn.actions)
        }),
{
    lemma_other_messages();
    lemma_only_messages_request();
}

proof fn lemma_command_upgrade(node: NodeView, command: UserCommand)
    ensures
        ({
            let (next, turn) = on_user_command(node, command);
            upgrade_rule(node, next, turn.actions)
        }),
{
    lemma_other_messages();
    lemma_only_messages_request();
}

/// Whether no action has to do with upgrades.
spec fn all_leave_upgrades(actions: Seq<ActionView>) -> bool {
    forall|i: int| 0 <= i < actions.len() ==> leaves_upgrades(#[trigger] actions[i])
}

proof fn lemma_connection_upgrade(node: NodeView, peer: Text, peers: Seq<Text>)
    ensures
        all_leave_upgrades(on_greeting(node, peer, peers).1.actions),
        all_leave_upgrades(on_closing(node, peer, peers).1.actions),
{
    lemma_other_messages();
}

proof fn lemma_content_upgrade(
    node: NodeView,
    peer: Text,
    message: Text,
    peers: Seq<Text>,
    handed: Option<RepublishView>,
)
    ensures
        all_leave_upgrades(republish_any(handed)),
        all_leave_upgrades(on_keepers(node, peer, message, peers)),
        all_leave_upgrades(on_content(peer, Some(message)).actions),
        all_leave_upgrades(on_nearest(node, peers).actions),
{
    lemma_other_messages();
    lemma_only_messages_request();
}

proof fn lemma_whitelist_upgrade(node: NodeView, peer: Text)
    ensures
        all_leave_upgrades(whitelisting(node, peer)),
{
    lemma_other_messages();
    lemma_only_messages_request();
}

proof fn lemma_description_upgrade(
    node: NodeView,
    sender: Text,
    online: Seq<Text>,
    whitelisted: Seq<Text>,
    aliases: Seq<AliasView>,
)
    ensures
        all_leave_upgrades(
            network_description(node, sender, online, whitelisted, aliases).actions,
        ),
{
    lemma_other_messages();
}

/// Every call keeps the rule of upgrades.
pub proof fn law_step_upgrade(node: NodeView, step: Step)
    ensures
        upgrade_rule(node, after_step(node, step).0, after_step(node, step).1),
{
    match step {
        Step::Input(Input::Received { sender, data, broadcasted }) => {
            if let Some(msg) = decode(data@) {
                lemma_message_upgrade(node, sender@, msg, broadcasted);
            }
        },
        Step::Input(Input::Command(command)) => lemma_command_upgrade(node, command),
        Step::Input(Input::Event(event)) => lemma_event_upgrade(node, event),
        Step::Message { sender, msg, broadcasted } => lemma_message_upgrade(
            node,
            sender,
            msg,
            broadcasted,
        ),
        Step::Greet { peer, whitelisted } => lemma_connection_upgrade(node, peer, whitelisted),
        Step::Close { peer, online } => lemma_connection_upgrade(node, peer, online),
        Step::Depart { peer, closing, handed } => lemma_content_upgrade(
            node,
            peer,
            Seq::empty(),
            Seq::empty(),
            handed,
        ),
        Step::Arrive { handed } => lemma_content_upgrade(
            node,
            Seq::empty(),
            Seq::empty(),
            Seq::empty(),
            handed,
        ),
        Step::WhitelistPeer { peer } => lemma_whitelist_upgrade(node, peer),
        Step::WhitelistNew { peer, whitelisted } => lemma_whitelist_upgrade(node, peer),
        Step::Keep { peer, message, closest } => lemma_content_upgrade(
            node,
            peer,
            message,
            closest,
            None,
        ),
        Step::DescribeNetwork { sender, online, whitelisted, aliases } => lemma_description_upgrade(
            node,
            sender,
            online,
            whitelisted,
            aliases,
        ),
        Step::Deliver { receiver, content } => {
            if let Some(text) = content {
                lemma_content_upgrade(node, receiver, text, Seq::empty(), None);
            }
        },
        Step::FetchMissed { closest } => lemma_content_upgrade(
            node,
            Seq::empty(),
            Seq::empty(),
            closest,
            None,
        ),
        _ => {
            lemma_other_messages();
            lemma_only_messages_request();
        },
    }
}

/// Over any sequence of calls a new node asks for a program at most once, and
/// notes that an upgrade is in progress if and only if it has asked. Once it has
/// asked, it never serves its own program.
pub proof fn law_history_upgrade(
    local_id: Text,
    version: Option<Text>,
    upgrade_port: Text,
    steps: Seq<Step>,
)
    ensures
        ({
            let (node, actions) = after_steps(fresh(local_id, version, upgrade_port), steps);
            &&& upgrade_requests(actions) <= 1
            &&& node.upgrade_in_progress <==> upgrade_requests(actions) == 1
            &&& forall|i: int, j: int|
                0 <= i < j < actions.len() && requests_upgrade(#[trigger] actions[i])
                    ==> leaves_upgrades(#[trigger] actions[j])
        }),
    decreases steps.len(),
{
    let start = fresh(local_id, version, upgrade_port);
    if steps.len() > 0 {
        law_history_upgrade(local_id, version, upgrade_port, steps.drop_last());
        let (before, done) = after_steps(start, steps.drop_last());
        let (next, more) = after_step(before, steps.last());
        let actions = done + more;
        law_step_upgrade(before, steps.last());
        lemma_requests_add(done, more);
        if before.upgrade_in_progress == next.upgrade_in_progress {
            lemma_no_requests_count(more);
        } else {
            assert(more.drop_last() =~= seq![]);
            assert(upgrade_requests(more.drop_last()) == 0);
            assert(upgrade_requests(more) == 1);
        }
        assert forall|i: int, j: int|
            0 <= i < j < actions.len() && requests_upgrade(
                #[trigger] actions[i],
            ) implies leaves_upgrades(#[trigger] actions[j]) by {
            if i < done.len() {
                assert(actions[i] == done[i]);
                lemma_request_counts(done, i);
                if j < done.len() {
                    assert(actions[j] == done[j]);
                } else {
                    assert(actions[j] == more[j - done.len()]);
                }
            } else {
                assert(actions[i] == more[i - done.len()]);
                assert(actions[j] == more[j - done.len()]);
            }
        }
    }
}

proof fn lemma_request_counts(actions: Seq<ActionView>, i: int)
    requires
        0 <= i < actions.len(),
        requests_upgrade(actions[i]),
    ensures
        upgrade_requests(actions) >= 1,
    decreases actions.len(),
{
    if i < actions.len() - 1 {
        lemma_request_counts(actions.drop_last(), i);
    }
}

/// Over any sequence of calls, the flag stays once it is set.
pub proof fn law_history_upgrade_stays(node: NodeView, steps: Seq<Step>)
    requires
        node.upgrade_in_progress,
    ensures
        after_steps(node, steps).0.upgrade_in_progress,
        forall|i: int|
            0 <= i < after_steps(node, steps).1.len() ==> leaves_upgrades(
                #[trigger] after_steps(node, steps).1[i],
            ),
    decreases steps.len(),
{
    if steps.len() > 0 {
        law_history_upgrade_stays(node, steps.drop_last());
        let (before, done) = after_steps(node, steps.drop_last());
        law_step_upgrade(before, steps.last());
        let more = after_step(before, steps.last()).1;
        assert forall|i: int| 0 <= i < (done + more).len() implies leaves_upgrades(
            #[trigger] (done + more)[i],
        ) by {
            if i < done.len() {
                assert((done + more)[i] == done[i]);
            } else {
                assert((done + more)[i] == more[i - done.len()]);
            }
        }
    }
}

/// Over any sequence of calls on a new node, no peer stands twice in a list of
/// peers, and no address in the list of addresses.
pub proof fn law_history_lists_distinct(
    local_id: Text,
    version: Option<Text>,
    upgrade_port: Text,
    steps: Seq<Step>,
)
    ensures
        lists_distinct(after_steps(fresh(local_id, version, upgrade_port), steps).0),
    decreases steps.len(),
{
    if steps.len() > 0 {
        law_history_lists_distinct(local_id, version, upgrade_port, steps.drop_last());
        let before = after_steps(
            fresh(local_id, version, upgrade_port),
            steps.drop_last(),
        ).0;
        match steps.last() {
            Step::Input(input) => law_lists_stay_distinct(before, input),
            Step::Greet { peer, whitelisted } => law_answers_keep_lists_distinct(
                before,
                peer,
                whitelisted,
                false,
                None,
            ),
            Step::Close { peer, online } => law_answers_keep_lists_distinct(
                before,
                peer,
                online,
                false,
                None,
            ),
            Step::Depart { peer, closing, handed } => law_answers_keep_lists_distinct(
                before,
                peer,
                Seq::empty(),
                closing,
                handed,
            ),
            _ => {},
        }
    }
}

} // verus!
