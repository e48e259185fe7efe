//! Questions that the servers of a cluster ask each other.

use vstd::prelude::*;

use crate::adapter::local_adapter::{space, LocalAdapter};
use crate::channel::types::{MemberView, PresenceMemberInfo};
use crate::error::{Error, ErrorView, Result};
use crate::ids::{is_uuid_v4, random_id};
use crate::model::{views, Duplicate};
use crate::namespace::{closed_off, NamespaceView};
use crate::table::{lemma_push_contains, named_order, Dict};
use crate::text::{opt_str, opt_text, own_opt, same, texts};
use crate::websocket::{SocketId, WebSocket};

verus! {

/// What a server can ask.
#[derive(Debug, Clone, Copy, PartialEq, Eq, Structural)]
pub enum RequestType {
    ChannelMembers,
    ChannelSockets,
    ChannelSocketsCount,
    SocketExistsInChannel,
    TerminateUserConnections,
}

/// A question of one server to the others.
#[derive(Debug)]
pub struct RequestBody {
    pub request_id: String,
    pub node_id: String,
    pub app_id: String,
    pub request_type: RequestType,
    pub channel: Option<String>,
    pub socket_id: Option<String>,
    pub user_id: Option<String>,
}

/// A question by its view.
#[verifier::ext_equal]
pub struct RequestView {
    pub request_id: Seq<char>,
    pub node_id: Seq<char>,
    pub app_id: Seq<char>,
    pub request_type: RequestType,
    pub channel: Option<Seq<char>>,
    pub socket_id: Option<Seq<char>>,
    pub user_id: Option<Seq<char>>,
}

impl View for RequestBody {
    type V = RequestView;

    open spec fn view(&self) -> RequestView {
        RequestView {
            request_id: self.request_id@,
            node_id: self.node_id@,
            app_id: self.app_id@,
            request_type: self.request_type,
            channel: opt_text(self.channel),
            socket_id: opt_text(self.socket_id),
            user_id: opt_text(self.user_id),
        }
    }
}

/// The answer of one server.
pub struct ResponseBody {
    pub request_id: String,
    pub node_id: String,
    pub app_id: String,
    pub members: Dict<PresenceMemberInfo>,
    pub socket_ids: Vec<String>,
    pub sockets_count: usize,
    pub exists: bool,
}

/// The answer of one server by its view.
#[verifier::ext_equal]
pub struct ResponseView {
    pub request_id: Seq<char>,
    pub node_id: Seq<char>,
    pub app_id: Seq<char>,
    pub members: Map<Seq<char>, MemberView>,
    pub socket_ids: Seq<Seq<char>>,
    pub sockets_count: int,
    pub exists: bool,
}

impl View for ResponseBody {
    type V = ResponseView;

    open spec fn view(&self) -> ResponseView {
        ResponseView {
            request_id: self.request_id@,
            node_id: self.node_id@,
            app_id: self.app_id@,
            members: self.members@,
            socket_ids: texts(self.socket_ids@),
            sockets_count: self.sockets_count as int,
            exists: self.exists,
        }
    }
}

impl ResponseView {
    /// An answer that says nothing.
    pub open spec fn blank(
        request_id: Seq<char>,
        node_id: Seq<char>,
        app_id: Seq<char>,
    ) -> ResponseView {
        ResponseView {
            request_id,
            node_id,
            app_id,
            members: Map::empty(),
            socket_ids: Seq::empty(),
            sockets_count: 0,
            exists: false,
        }
    }

    /// The answer together with that of another server: all members and connections, the sum of the
    /// counts, and whether one of them says yes.
    pub open spec fn with(self, other: ResponseView) -> ResponseView {
        ResponseView {
            members: self.members.union_prefer_right(other.members),
            socket_ids: self.socket_ids + other.socket_ids,
            sockets_count: self.sockets_count + other.sockets_count,
            exists: self.exists || other.exists,
            ..self
        }
    }
}

/// The answers of several servers together.
pub open spec fn combined(start: ResponseView, responses: Seq<ResponseView>) -> ResponseView
    decreases responses.len(),
{
    if responses.len() == 0 {
        start
    } else {
        combined(start, responses.drop_last()).with(responses.last())
    }
}

/// A message to a channel, as the servers exchange it.
#[derive(Debug)]
pub struct BroadcastMessage {
    pub node_id: String,
    pub app_id: String,
    pub channel: String,
    pub message: String,
    pub except_socket_id: Option<String>,
}

/// A question that was asked, and the answers so far.
pub struct PendingRequest {
    /// When it was asked, in milliseconds.
    pub start_time: u128,
    pub app_id: String,
    pub responses: Vec<ResponseBody>,
}

/// A question that was asked, by its view.
#[verifier::ext_equal]
pub struct PendingView {
    pub start_time: u128,
    pub app_id: Seq<char>,
    pub responses: Seq<ResponseView>,
}

impl View for PendingRequest {
    type V = PendingView;

    open spec fn view(&self) -> PendingView {
        PendingView {
            start_time: self.start_time,
            app_id: self.app_id@,
            responses: views(self.responses@),
        }
    }
}

/// One server of a cluster, and the questions that it asked.
pub struct HorizontalAdapter {
    /// The name of this server in the cluster.
    pub node_id: String,
    /// The namespaces of this server.
    pub local_adapter: LocalAdapter,
    /// The questions that are open.
    pub pending_requests: Dict<PendingRequest>,
    /// How long a question stays open, in milliseconds.
    pub requests_timeout: u64,
}

/// One server of a cluster by its view.
#[verifier::ext_equal]
pub struct HorizontalView {
    pub node_id: Seq<char>,
    pub spaces: Map<Seq<char>, NamespaceView>,
    pub pending: Map<Seq<char>, PendingView>,
    pub requests_timeout: u64,
}

impl View for HorizontalAdapter {
    type V = HorizontalView;

    open spec fn view(&self) -> HorizontalView {
        HorizontalView {
            node_id: self.node_id@,
            spaces: self.local_adapter@,
            pending: self.pending_requests@,
            requests_timeout: self.requests_timeout,
        }
    }
}

/// The open questions without those that were asked more than `timeout` milliseconds before `now`.
pub open spec fn without_stale(
    pending: Map<Seq<char>, PendingView>,
    timeout: u64,
    now: u128,
) -> Map<Seq<char>, PendingView> {
    Map::new(
        |k: Seq<char>| pending.contains_key(k) && now - pending[k].start_time <= timeout,
        |k: Seq<char>| pending[k],
    )
}

impl HorizontalView {
    /// Whether a question can be answered: to take the connections of a user out, all of them have
    /// to exist.
    pub open spec fn can_answer(self, request: RequestView) -> bool {
        request.node_id != self.node_id && request.request_type
            == RequestType::TerminateUserConnections && request.user_id is Some ==> space(
            self.spaces,
            request.app_id,
        ).user_is_connected(request.user_id->0)
    }

    /// Whether `answer` is the answer to the question of another server, `gone` are connections
    /// that were taken out for it, and `after` is the server after it.
    pub open spec fn answers(
        self,
        request: RequestView,
        answer: ResponseView,
        gone: Seq<WebSocket>,
        after: HorizontalView,
    ) -> bool {
        let ns = space(self.spaces, request.app_id);
        let blank = ResponseView::blank(request.request_id, self.node_id, request.app_id);
        match (request.request_type, request.channel) {
            (RequestType::ChannelMembers, Some(channel)) => {
                &&& answer == (ResponseView { members: answer.members, ..blank })
                &&& ns.are_members(channel, answer.members)
                &&& gone.len() == 0
                &&& after == self.with_space(request.app_id, ns.touched(channel))
            },
            (RequestType::ChannelSockets, Some(channel)) => {
                &&& answer == (ResponseView { socket_ids: answer.socket_ids, ..blank })
                &&& named_order(answer.socket_ids, ns.room(channel).sockets)
                &&& gone.len() == 0
                &&& after == self.with_space(request.app_id, ns.touched(channel))
            },
            (RequestType::ChannelSocketsCount, Some(channel)) => {
                &&& answer == (ResponseView {
                    sockets_count: ns.room(channel).sockets.len() as int,
                    ..blank
                })
                &&& gone.len() == 0
                &&& after == self.with_space(request.app_id, ns.touched(channel))
            },
            (RequestType::SocketExistsInChannel, Some(channel)) => match request.socket_id {
                Some(id) => {
                    &&& answer == (ResponseView {
                        exists: ns.room(channel).sockets.contains(id),
                        ..blank
                    })
                    &&& gone.len() == 0
                    &&& after == self.with_space(request.app_id, ns.touched(channel))
                },
                None => answer == blank && gone.len() == 0 && after == self,
            },
            (RequestType::TerminateUserConnections, _) => match request.user_id {
                Some(user_id) => {
                    &&& answer == (ResponseView { exists: true, ..blank })
                    &&& closed_off(ns, ns.connections_of(user_id), gone)
                    &&& after == self.with_space(
                        request.app_id,
                        ns.without_user_connections(user_id),
                    )
                },
                None => answer == blank && gone.len() == 0 && after == self,
            },
            _ => answer == blank && gone.len() == 0 && after == self,
        }
    }

    /// The server with another state of a namespace.
    pub open spec fn with_space(self, app_id: Seq<char>, ns: NamespaceView) -> HorizontalView {
        HorizontalView { spaces: self.spaces.insert(app_id, ns), ..self }
    }

    /// The server after an answer came in: one to an open question is kept, behind the others.
    pub open spec fn heard(self, response: ResponseView) -> HorizontalView {
        if self.pending.contains_key(response.request_id) {
            let request = self.pending[response.request_id];
            HorizontalView {
                pending: self.pending.insert(
                    response.request_id,
                    PendingView { responses: request.responses.push(response), ..request },
                ),
                ..self
            }
        } else {
            self
        }
    }

    /// The answers to a question so far.
    pub open spec fn responses(self, request_id: Seq<char>) -> Seq<ResponseView> {
        if self.pending.contains_key(request_id) {
            self.pending[request_id].responses
        } else {
            Seq::empty()
        }
    }

    /// The answers to a question together.
    pub open spec fn total(self, request_id: Seq<char>, app_id: Seq<char>) -> ResponseView {
        combined(
            ResponseView::blank(request_id, self.node_id, app_id),
            self.responses(request_id),
        )
    }
}

/// How many other servers are asked, in a cluster of so many.
pub open spec fn others(expected_node_count: usize) -> int {
    if expected_node_count > 1 {
        expected_node_count - 1
    } else {
        0
    }
}

/// What one that waits for answers does.
#[derive(Debug, Clone, Copy, PartialEq, Eq, Structural)]
pub enum Waiting {
    /// Waits for this many milliseconds more.
    On(u64),
    /// Stops: enough answers came, or the time is over.
    Over,
    /// Stops: the question is no longer open.
    Lost,
}

/// The sum of the counts that the answers of several servers give.
pub open spec fn total_count(responses: Seq<ResponseView>) -> int
    decreases responses.len(),
{
    if responses.len() == 0 {
        0
    } else {
        total_count(responses.drop_last()) + responses.last().sockets_count
    }
}

/// The counts of the first answers add up to no more than all of them.
proof fn lemma_count_grows(responses: Seq<ResponseView>, n: int)
    requires
        0 <= n <= responses.len(),
        forall|i: int| 0 <= i < responses.len() ==> (#[trigger] responses[i]).sockets_count >= 0,
    ensures
        0 <= total_count(responses.take(n)) <= total_count(responses),
    decreases responses.len() - n,
{
    if n == responses.len() {
        assert(responses.take(n) =~= responses);
        lemma_count_is_positive(responses);
    } else {
        lemma_count_grows(responses, n + 1);
        assert(responses.take(n + 1).drop_last() =~= responses.take(n));
        lemma_count_is_positive(responses.take(n));
    }
}

/// Counts add up to no less than nothing.
proof fn lemma_count_is_positive(responses: Seq<ResponseView>)
    requires
        forall|i: int| 0 <= i < responses.len() ==> (#[trigger] responses[i]).sockets_count >= 0,
    ensures
        total_count(responses) >= 0,
    decreases responses.len(),
{
    if responses.len() > 0 {
        assert forall|i: int| 0 <= i < responses.drop_last().len() implies (
        #[trigger] responses.drop_last()[i]).sockets_count >= 0 by {
            assert(responses[i].sockets_count >= 0);
        }
        lemma_count_is_positive(responses.drop_last());
        assert(responses[responses.len() - 1].sockets_count >= 0);
    }
}

/// The count of the answers together is the sum of their counts.
proof fn lemma_combined_count(start: ResponseView, responses: Seq<ResponseView>)
    ensures
        combined(start, responses).sockets_count == start.sockets_count + total_count(responses),
    decreases responses.len(),
{
    if responses.len() > 0 {
        lemma_combined_count(start, responses.drop_last());
    }
}

impl HorizontalAdapter {
    /// A server without namespaces, with a random name in the cluster.
    pub fn new() -> (r: Self)
        ensures
            is_uuid_v4(r@.node_id),
            r@.spaces == Map::<Seq<char>, NamespaceView>::empty(),
            r@.pending == Map::<Seq<char>, PendingView>::empty(),
            r@.requests_timeout == 5000,
    {
        HorizontalAdapter {
            node_id: random_id(),
            local_adapter: LocalAdapter::new(),
            pending_requests: Dict::new(),
            requests_timeout: 5000,
        }
    }

    /// Gives up the questions that are open for too long.
    pub fn start_request_cleanup(&mut self, now: u128)
        ensures
            final(self)@ == (HorizontalView {
                pending: without_stale(old(self)@.pending, old(self)@.requests_timeout, now),
                ..old(self)@
            }),
    {
        let ghost start = self.pending_requests@;
        let n: usize = self.pending_requests.len();
        let ghost order = self.pending_requests.order();
        let mut stale: Vec<String> = Vec::new();
        let mut i: usize = 0;
        while i < n
            invariant
                i <= n,
                n == order.len(),
                order == self.pending_requests.order(),
                start == self.pending_requests@,
                *self == *old(self),
                forall|k: Seq<char>| #[trigger]
                    texts(stale@).contains(k) <==> order.take(i as int).contains(k) && now
                        - start[k].start_time > self.requests_timeout,
            decreases n - i,
        {
            let key = self.pending_requests.key_at(i);
            let request = self.pending_requests.value_at(i);
            let ghost before = stale@;
            proof {
                let seen = order.take(i as int);
                assert(order.take(i + 1) =~= seen.push(key@));
            }
            if now > request.start_time && now - request.start_time > self.requests_timeout as u128 {
                stale.push(key.clone());
                assert(texts(stale@) =~= texts(before).push(key@));
            }
            proof {
                let seen = order.take(i as int);
                assert forall|k: Seq<char>| #[trigger] texts(stale@).contains(k) <==> order.take(
                    i + 1,
                ).contains(k) && now - start[k].start_time > self.requests_timeout by {
                    lemma_push_contains(seen, key@, k);
                    lemma_push_contains(texts(before), key@, k);
                    assert(texts(before).contains(k) <==> seen.contains(k) && now
                        - start[k].start_time > self.requests_timeout);
                }
            }
            i = i + 1;
        }
        assert(order.take(i as int) =~= order);
        let mut k: usize = 0;
        while k < stale.len()
            invariant
                k <= stale@.len(),
                self.node_id == old(self).node_id,
                self.local_adapter == old(self).local_adapter,
                self.requests_timeout == old(self).requests_timeout,
                forall|q: Seq<char>| #[trigger]
                    self.pending_requests@.contains_key(q) <==> start.contains_key(q) && !texts(
                        stale@,
                    ).take(k as int).contains(q),
                forall|q: Seq<char>| #[trigger]
                    self.pending_requests@.contains_key(q) ==> self.pending_requests@[q]
                        == start[q],
            decreases stale@.len() - k,
        {
            proof {
                let seen = texts(stale@).take(k as int);
                let id = texts(stale@)[k as int];
                assert(texts(stale@).take(k + 1) =~= seen.push(id));
                assert forall|x: Seq<char>| seen.push(id).contains(x) <==> (seen.contains(x) || x
                    == id) by {
                    lemma_push_contains(seen, id, x);
                }
            }
            self.pending_requests.remove(stale[k].as_str());
            k = k + 1;
        }
        proof {
            assert(texts(stale@).take(k as int) =~= texts(stale@));
            assert forall|q: Seq<char>| start.contains_key(q) implies #[trigger] order.contains(
                q,
            ) by {
                assert(order.to_set().contains(q));
            }
            assert(self.pending_requests@ =~= without_stale(start, self.requests_timeout, now));
        }
    }

    /// Answers the question of another server. One's own questions are not answered.
    pub fn process_request(&mut self, request: &RequestBody) -> (r: Result<
        (ResponseBody, Vec<WebSocket>),
    >)
        requires
            old(self)@.can_answer(request@),
        ensures
            match r {
                Ok((answer, gone)) => request@.node_id != old(self)@.node_id && old(self)@.answers(
                    request@,
                    answer@,
                    gone@,
                    final(self)@,
                ),
                Err(e) => {
                    &&& request@.node_id == old(self)@.node_id
                    &&& e@ == ErrorView::Other("Ignoring own request"@)
                    &&& final(self)@ == old(self)@
                },
            },
    {
        if same(request.node_id.as_str(), self.node_id.as_str()) {
            return Err(Error::Other("Ignoring own request".to_string()));
        }
        let app_id = request.app_id.as_str();
        let mut response = HorizontalAdapter::blank(
            request.request_id.as_str(),
            self.node_id.as_str(),
            app_id,
        );
        let mut gone: Vec<WebSocket> = Vec::new();
        match request.request_type {
            RequestType::ChannelMembers => match &request.channel {
                Some(channel) => {
                    response.members = self.local_adapter.get_channel_members(
                        app_id,
                        channel.as_str(),
                    );
                },
                None => {},
            },
            RequestType::ChannelSockets => match &request.channel {
                Some(channel) => {
                    let sockets = self.local_adapter.get_channel(app_id, channel.as_str());
                    response.socket_ids = sockets.items();
                },
                None => {},
            },
            RequestType::ChannelSocketsCount => match &request.channel {
                Some(channel) => {
                    response.sockets_count = self.local_adapter.get_channel_socket_count(
                        app_id,
                        channel.as_str(),
                    );
                },
                None => {},
            },
            RequestType::SocketExistsInChannel => match (&request.channel, &request.socket_id) {
                (Some(channel), Some(socket_id)) => {
                    response.exists = self.local_adapter.is_in_channel(
                        app_id,
                        channel.as_str(),
                        &SocketId(socket_id.clone()),
                    );
                },
                _ => {},
            },
            RequestType::TerminateUserConnections => match &request.user_id {
                Some(user_id) => {
                    gone = self.local_adapter.terminate_user_connections(app_id, user_id.as_str());
                    response.exists = true;
                },
                None => {},
            },
        }
        Ok((response, gone))
    }

    /// An answer that says nothing.
    fn blank(request_id: &str, node_id: &str, app_id: &str) -> (r: ResponseBody)
        ensures
            r@ == ResponseView::blank(request_id@, node_id@, app_id@),
    {
        let socket_ids: Vec<String> = Vec::new();
        assert(texts(socket_ids@) =~= Seq::<Seq<char>>::empty());
        ResponseBody {
            request_id: request_id.to_string(),
            node_id: node_id.to_string(),
            app_id: app_id.to_string(),
            members: Dict::new(),
            socket_ids,
            sockets_count: 0,
            exists: false,
        }
    }

    /// Keeps an answer of another server, where the question is open.
    pub fn process_response(&mut self, response: ResponseBody)
        ensures
            final(self)@ == old(self)@.heard(response@),
    {
        let ghost id = response@.request_id;
        let key = response.request_id.clone();
        match self.pending_requests.get_mut(key.as_str()) {
            Some(request) => {
                let ghost before = request.responses@;
                request.responses.push(response);
                assert(views(request.responses@) =~= views(before).push(response@));
            },
            None => {},
        }
        assert(self@ =~= old(self)@.heard(response@));
    }

    /// Asks the other servers a question at `now`, in milliseconds. What it gives back has to be
    /// published.
    pub fn send_request(
        &mut self,
        app_id: &str,
        request_type: RequestType,
        channel: Option<&str>,
        socket_id: Option<&str>,
        user_id: Option<&str>,
        now: u128,
    ) -> (r: RequestBody)
        ensures
            is_uuid_v4(r@.request_id),
            r@ == (RequestView {
                request_id: r@.request_id,
                node_id: old(self)@.node_id,
                app_id: app_id@,
                request_type,
                channel: opt_str(channel),
                socket_id: opt_str(socket_id),
                user_id: opt_str(user_id),
            }),
            final(self)@ == (HorizontalView {
                pending: old(self)@.pending.insert(
                    r@.request_id,
                    PendingView { start_time: now, app_id: app_id@, responses: Seq::empty() },
                ),
                ..old(self)@
            }),
    {
        let request_id = random_id();
        let responses: Vec<ResponseBody> = Vec::new();
        assert(views(responses@) =~= Seq::<ResponseView>::empty());
        self.pending_requests.insert(
            request_id.clone(),
            PendingRequest { start_time: now, app_id: app_id.to_string(), responses },
        );
        RequestBody {
            request_id,
            node_id: self.node_id.clone(),
            app_id: app_id.to_string(),
            request_type,
            channel: own_opt(channel),
            socket_id: own_opt(socket_id),
            user_id: own_opt(user_id),
        }
    }

    /// What one that waits for the answers to a question does, `elapsed_ms` after it was asked: it
    /// waits until all other servers have answered, or the time is over.
    pub fn poll_request(&self, request_id: &str, elapsed_ms: u128, expected_node_count: usize) -> (r:
        Waiting)
        ensures
            r == if elapsed_ms >= self@.requests_timeout {
                Waiting::Over
            } else if !self@.pending.contains_key(request_id@) {
                Waiting::Lost
            } else if self@.pending[request_id@].responses.len() >= others(expected_node_count) {
                Waiting::Over
            } else {
                Waiting::On(10)
            },
    {
        if elapsed_ms >= self.requests_timeout as u128 {
            return Waiting::Over;
        }
        let needed: usize = if expected_node_count > 1 {
            expected_node_count - 1
        } else {
            0
        };
        match self.pending_requests.get(request_id) {
            Some(request) => {
                assert(views(request.responses@).len() == request.responses@.len());
                if request.responses.len() >= needed {
                    Waiting::Over
                } else {
                    Waiting::On(10)
                }
            },
            None => Waiting::Lost,
        }
    }

    /// The error that a question is no longer open.
    pub fn lost_request() -> (r: Error)
        ensures
            r@ == ErrorView::Other("Request was removed"@),
    {
        Error::Other("Request was removed".to_string())
    }

    /// Whether the counts that the answers to a question give can be added up.
    pub fn counts_fit(&self, request_id: &str) -> (r: bool)
        ensures
            r == (total_count(self@.responses(request_id@)) <= usize::MAX),
    {
        match self.pending_requests.get(request_id) {
            Some(request) => {
                let ghost all = views(request.responses@);
                let mut total: usize = 0;
                let mut i: usize = 0;
                assert(all.take(0) =~= Seq::<ResponseView>::empty());
                while i < request.responses.len()
                    invariant
                        i <= request.responses@.len(),
                        all == views(request.responses@),
                        all == self@.responses(request_id@),
                        total == total_count(all.take(i as int)),
                    decreases request.responses@.len() - i,
                {
                    let count: usize = request.responses[i].sockets_count;
                    proof {
                        assert(all.take(i + 1).drop_last() =~= all.take(i as int));
                        assert(all.take(i + 1).last() == request.responses@[i as int]@);
                        lemma_count_grows(all, i + 1);
                    }
                    if count > usize::MAX - total {
                        return false;
                    }
                    total = total + count;
                    i = i + 1;
                }
                assert(all.take(i as int) =~= all);
                true
            },
            None => true,
        }
    }

    /// Closes a question, and gives the answers to it together.
    pub fn finish_request(&mut self, request_id: &str, app_id: &str) -> (r: ResponseBody)
        requires
            total_count(old(self)@.responses(request_id@)) <= usize::MAX,
        ensures
            r@ == old(self)@.total(request_id@, app_id@),
            final(self)@ == (HorizontalView {
                pending: old(self)@.pending.remove(request_id@),
                ..old(self)@
            }),
    {
        let mut total = HorizontalAdapter::blank(request_id, self.node_id.as_str(), app_id);
        let ghost start = total@;
        match self.pending_requests.remove(request_id) {
            Some(request) => {
                let ghost all = views(request.responses@);
                let mut i: usize = 0;
                assert(all.take(0) =~= Seq::<ResponseView>::empty());
                while i < request.responses.len()
                    invariant
                        i <= request.responses@.len(),
                        all == views(request.responses@),
                        start.sockets_count == 0,
                        total_count(all) <= usize::MAX,
                        total@ == combined(start, all.take(i as int)),
                    decreases request.responses@.len() - i,
                {
                    let response = &request.responses[i];
                    proof {
                        assert(all.take(i + 1).drop_last() =~= all.take(i as int));
                        assert(all.take(i + 1).last() == response@);
                        lemma_count_grows(all, i + 1);
                        lemma_combined_count(start, all.take(i as int));
                    }
                    HorizontalAdapter::absorb(&mut total, response);
                    i = i + 1;
                }
                assert(all.take(i as int) =~= all);
            },
            None => {},
        }
        total
    }

    /// Adds the answer of one server to those of others.
    fn absorb(total: &mut ResponseBody, response: &ResponseBody)
        requires
            old(total).sockets_count + response.sockets_count <= usize::MAX,
        ensures
            final(total)@ == old(total)@.with(response@),
    {
        let ghost start = total@;
        let n: usize = response.members.len();
        let ghost order = response.members.order();
        let mut i: usize = 0;
        while i < n
            invariant
                i <= n,
                n == order.len(),
                order == response.members.order(),
                total.request_id == old(total).request_id,
                total.node_id == old(total).node_id,
                total.app_id == old(total).app_id,
                total.socket_ids == old(total).socket_ids,
                total.sockets_count == old(total).sockets_count,
                total.exists == old(total).exists,
                start == old(total)@,
                forall|k: Seq<char>| #[trigger]
                    total.members@.contains_key(k) <==> start.members.contains_key(k)
                        || order.take(i as int).contains(k),
                forall|k: Seq<char>| #[trigger]
                    total.members@.contains_key(k) ==> total.members@[k] == if order.take(
                        i as int,
                    ).contains(k) {
                        response.members@[k]
                    } else {
                        start.members[k]
                    },
            decreases n - i,
        {
            let key = response.members.key_at(i);
            let info = response.members.value_at(i);
            proof {
                let seen = order.take(i as int);
                assert(order.take(i + 1) =~= seen.push(key@));
                assert forall|k: Seq<char>| seen.push(key@).contains(k) <==> (seen.contains(k) || k
                    == key@) by {
                    lemma_push_contains(seen, key@, k);
                }
            }
            total.members.insert(key.clone(), info.duplicate());
            i = i + 1;
        }
        proof {
            assert(order.take(i as int) =~= order);
            assert forall|k: Seq<char>| response.members@.contains_key(k) <==> #[trigger]
                order.contains(k) by {
                assert(order.to_set().contains(k) <==> order.contains(k));
                assert(response.members@.dom().contains(k) <==> response.members@.contains_key(k));
            }
            assert(total.members@ =~= start.members.union_prefer_right(response.members@));
        }
        let mut j: usize = 0;
        while j < response.socket_ids.len()
            invariant
                j <= response.socket_ids@.len(),
                total.request_id == old(total).request_id,
                total.node_id == old(total).node_id,
                total.app_id == old(total).app_id,
                total.sockets_count == old(total).sockets_count,
                total.exists == old(total).exists,
                start == old(total)@,
                total.members@ == start.members.union_prefer_right(response.members@),
                texts(total.socket_ids@) == start.socket_ids + texts(response.socket_ids@).take(
                    j as int,
                ),
            decreases response.socket_ids@.len() - j,
        {
            let ghost before = total.socket_ids@;
            total.socket_ids.push(response.socket_ids[j].clone());
            proof {
                let ids = texts(response.socket_ids@);
                assert(texts(total.socket_ids@) =~= texts(before).push(ids[j as int]));
                assert(ids.take(j + 1) =~= ids.take(j as int).push(ids[j as int]));
                assert(start.socket_ids + ids.take(j + 1) =~= (start.socket_ids + ids.take(
                    j as int,
                )).push(ids[j as int]));
            }
            j = j + 1;
        }
        assert(texts(response.socket_ids@).take(j as int) =~= texts(response.socket_ids@));
        total.sockets_count = total.sockets_count + response.sockets_count;
        total.exists = total.exists || response.exists;
        assert(total@ =~= start.with(response@));
    }
}

/// The answers of several servers together: the count is the sum of theirs, they say yes where one
/// does, and a user is a member where one has the user as a member.
pub proof fn combined_answers_add_up(
    start: ResponseView,
    responses: Seq<ResponseView>,
    user_id: Seq<char>,
)
    ensures
        combined(start, responses).sockets_count == start.sockets_count + total_count(responses),
        combined(start, responses).exists <==> start.exists || exists|i: int|
            0 <= i < responses.len() && (#[trigger] responses[i]).exists,
        combined(start, responses).members.contains_key(user_id) <==> start.members.contains_key(
            user_id,
        ) || exists|i: int|
            0 <= i < responses.len() && (#[trigger] responses[i]).members.contains_key(user_id),
    decreases responses.len(),
{
    lemma_combined_count(start, responses);
    if responses.len() > 0 {
        let rest = responses.drop_last();
        combined_answers_add_up(start, rest, user_id);
        let last = responses.len() - 1;
        assert(responses.last() == responses[last]);
        if rest.len() > 0 {
            assert forall|i: int| 0 <= i < rest.len() implies rest[i] == responses[i] by {}
        }
        if exists|i: int| 0 <= i < responses.len() && (#[trigger] responses[i]).exists {
            let i = choose|i: int| 0 <= i < responses.len() && (#[trigger] responses[i]).exists;
            if i < last {
                assert(rest[i].exists);
            }
        }
        if exists|i: int| 0 <= i < rest.len() && (#[trigger] rest[i]).exists {
            let i = choose|i: int| 0 <= i < rest.len() && (#[trigger] rest[i]).exists;
            assert(responses[i].exists);
        }
        if exists|i: int|
            0 <= i < responses.len() && (#[trigger] responses[i]).members.contains_key(user_id) {
            let i = choose|i: int|
                0 <= i < responses.len() && (#[trigger] responses[i]).members.contains_key(
                    user_id,
                );
            if i < last {
                assert(rest[i].members.contains_key(user_id));
            }
        }
        if exists|i: int|
            0 <= i < rest.len() && (#[trigger] rest[i]).members.contains_key(user_id) {
            let i = choose|i: int|
                0 <= i < rest.len() && (#[trigger] rest[i]).members.contains_key(user_id);
            assert(responses[i].members.contains_key(user_id));
        }
    }
}

/// An answer to a question that is not open changes nothing, and one to an open question changes no
/// other.
pub proof fn answers_go_to_their_question(
    adapter: HorizontalView,
    response: ResponseView,
    other: Seq<char>,
)
    ensures
        !adapter.pending.contains_key(response.request_id) ==> adapter.heard(response) == adapter,
        adapter.pending.contains_key(response.request_id) ==> adapter.heard(response).responses(
            response.request_id,
        ) == adapter.responses(response.request_id).push(response),
        other != response.request_id ==> adapter.heard(response).responses(other)
            == adapter.responses(other),
{
}

/// The answers of several servers together hold the connections that each of them names, all of
/// them and no others, in the order of the answers. They are to the question that they were begun
/// for, and their count is the sum of the counts.
pub proof fn combined_answers_hold_every_connection(
    start: ResponseView,
    responses: Seq<ResponseView>,
    id: Seq<char>,
)
    ensures
        combined(start, responses).socket_ids == start.socket_ids + responses.map_values(
            |r: ResponseView| r.socket_ids,
        ).flatten(),
        combined(start, responses).socket_ids.len() == responses.fold_left(
            start.socket_ids.len() as int,
            |n: int, r: ResponseView| n + r.socket_ids.len(),
        ),
        combined(start, responses).socket_ids.contains(id) <==> start.socket_ids.contains(id)
            || exists|i: int|
            0 <= i < responses.len() && (#[trigger] responses[i]).socket_ids.contains(id),
        combined(start, responses).sockets_count == responses.fold_left(
            start.sockets_count,
            |n: int, r: ResponseView| n + r.sockets_count,
        ),
        combined(start, responses).request_id == start.request_id,
        combined(start, responses).node_id == start.node_id,
        combined(start, responses).app_id == start.app_id,
    decreases responses.len(),
{
    let ids = responses.map_values(|r: ResponseView| r.socket_ids);
    ids.lemma_flatten_and_flatten_alt_are_equivalent();
    if responses.len() == 0 {
        assert(start.socket_ids + ids.flatten() =~= start.socket_ids);
    } else {
        let rest = responses.drop_last();
        let last = responses.len() - 1;
        combined_answers_hold_every_connection(start, rest, id);
        let first = rest.map_values(|r: ResponseView| r.socket_ids);
        first.lemma_flatten_and_flatten_alt_are_equivalent();
        assert(ids.drop_last() =~= first);
        assert(ids.last() == responses.last().socket_ids);
        assert(start.socket_ids + (first.flatten() + responses.last().socket_ids) =~= (
        start.socket_ids + first.flatten()) + responses.last().socket_ids);
        let before = combined(start, rest).socket_ids;
        let more = responses.last().socket_ids;
        assert((before + more).contains(id) <==> before.contains(id) || more.contains(id)) by {
            if before.contains(id) {
                let k = choose|k: int| 0 <= k < before.len() && before[k] == id;
                assert((before + more)[k] == id);
            }
            if more.contains(id) {
                let k = choose|k: int| 0 <= k < more.len() && more[k] == id;
                assert((before + more)[before.len() + k] == id);
            }
        }
        assert(responses[last] == responses.last());
        if exists|i: int|
            0 <= i < responses.len() && (#[trigger] responses[i]).socket_ids.contains(id) {
            let i = choose|i: int|
                0 <= i < responses.len() && (#[trigger] responses[i]).socket_ids.contains(id);
            if i < last {
                assert(rest[i].socket_ids.contains(id));
            }
        }
        if exists|i: int| 0 <= i < rest.len() && (#[trigger] rest[i]).socket_ids.contains(id) {
            let i = choose|i: int|
                0 <= i < rest.len() && (#[trigger] rest[i]).socket_ids.contains(id);
            assert(responses[i].socket_ids.contains(id));
        }
    }
}

/// Of a user that several answers have as a member, the answers together tell what the last of them
/// tells.
pub proof fn combined_answers_tell_the_last_of_a_member(
    start: ResponseView,
    responses: Seq<ResponseView>,
    user_id: Seq<char>,
    i: int,
)
    requires
        forall|j: int|
            i < j < responses.len() ==> !(#[trigger] responses[j]).members.contains_key(user_id),
        if i == -1 {
            start.members.contains_key(user_id)
        } else {
            0 <= i < responses.len() && responses[i].members.contains_key(user_id)
        },
    ensures
        combined(start, responses).members.contains_key(user_id),
        combined(start, responses).members[user_id] == if i == -1 {
            start.members[user_id]
        } else {
            responses[i].members[user_id]
        },
    decreases responses.len(),
{
    if responses.len() > 0 {
        let rest = responses.drop_last();
        let last = responses.len() - 1;
        assert(responses[last] == responses.last());
        if i < last {
            assert forall|j: int| i < j < rest.len() implies !(
            #[trigger] rest[j]).members.contains_key(user_id) by {
                assert(!responses[j].members.contains_key(user_id));
            }
            combined_answers_tell_the_last_of_a_member(start, rest, user_id, i);
        }
    }
}

/// The answers to an open question together are to that question, from this server and for this
/// application, and hold nothing but what the answers hold.
pub proof fn total_holds_what_was_answered(
    adapter: HorizontalView,
    request_id: Seq<char>,
    app_id: Seq<char>,
    id: Seq<char>,
)
    requires
        adapter.pending.contains_key(request_id),
    ensures
        ({
            let total = adapter.total(request_id, app_id);
            let answers = adapter.pending[request_id].responses;
            &&& total.request_id == request_id
            &&& total.node_id == adapter.node_id
            &&& total.app_id == app_id
            &&& total.socket_ids == answers.map_values(|r: ResponseView| r.socket_ids).flatten()
            &&& total.sockets_count == answers.fold_left(
                0int,
                |n: int, r: ResponseView| n + r.sockets_count,
            )
            &&& total.exists <==> exists|i: int|
                0 <= i < answers.len() && (#[trigger] answers[i]).exists
            &&& total.members.contains_key(id) <==> exists|i: int|
                0 <= i < answers.len() && (#[trigger] answers[i]).members.contains_key(id)
        }),
{
    let start = ResponseView::blank(request_id, adapter.node_id, app_id);
    let answers = adapter.responses(request_id);
    combined_answers_hold_every_connection(start, answers, id);
    combined_answers_add_up(start, answers, id);
    let ids = answers.map_values(|r: ResponseView| r.socket_ids);
    assert(Seq::<Seq<char>>::empty() + ids.flatten() =~= ids.flatten());
}

/// What a server answers the questions of another about a channel: the users on it, the connections
/// on it, how many these are, and whether a connection is among them. Each answer names the question,
/// this server and the application, and says nothing else; no connection is taken out for it, and who
/// is on which channel does not change.
pub proof fn answer_tells_of_the_channel(
    adapter: HorizontalView,
    request: RequestView,
    answer: ResponseView,
    gone: Seq<WebSocket>,
    after: HorizontalView,
    channel: Seq<char>,
    id: Seq<char>,
    u: Seq<char>,
    app_id: Seq<char>,
    c: Seq<char>,
)
    requires
        adapter.answers(request, answer, gone, after),
        request.request_type != RequestType::TerminateUserConnections,
        request.channel == Some(channel),
        request.request_type == RequestType::SocketExistsInChannel ==> request.socket_id == Some(
            id,
        ),
    ensures
        ({
            let room = space(adapter.spaces, request.app_id).room(channel);
            &&& answer.request_id == request.request_id
            &&& answer.node_id == adapter.node_id
            &&& answer.app_id == request.app_id
            &&& gone.len() == 0
            &&& space(after.spaces, app_id).room(c) == space(adapter.spaces, app_id).room(c)
            &&& space(after.spaces, app_id).sockets == space(adapter.spaces, app_id).sockets
            &&& space(after.spaces, app_id).users == space(adapter.spaces, app_id).users
            &&& after.pending == adapter.pending
            &&& if request.request_type == RequestType::ChannelSockets {
                answer.socket_ids.contains(id) == room.sockets.contains(id)
                    && answer.socket_ids.no_duplicates()
            } else {
                answer.socket_ids.len() == 0
            }
            &&& answer.sockets_count == if request.request_type
                == RequestType::ChannelSocketsCount {
                room.sockets.len() as int
            } else {
                0
            }
            &&& answer.exists == (request.request_type == RequestType::SocketExistsInChannel
                && room.sockets.contains(id))
            &&& answer.members.contains_key(u) <==> (request.request_type
                == RequestType::ChannelMembers && exists|x: Seq<char>| #[trigger]
                member_tells(space(adapter.spaces, request.app_id), channel, x, u))
        }),
{
    let ns = space(adapter.spaces, request.app_id);
    if request.request_type == RequestType::ChannelSockets {
        assert(answer.socket_ids.to_set().contains(id) <==> answer.socket_ids.contains(id));
    }
    if request.request_type == RequestType::ChannelMembers {
        if answer.members.contains_key(u) {
            let x = choose|x: Seq<char>| #[trigger]
                ns.told_by(channel, x) == Some(answer.members[u]);
            assert(member_tells(ns, channel, x, u));
        }
        if exists|x: Seq<char>| #[trigger] member_tells(ns, channel, x, u) {
            let x = choose|x: Seq<char>| #[trigger] member_tells(ns, channel, x, u);
            assert(ns.told_by(channel, x) is Some);
        }
    }
}

/// Whether a connection on a channel tells of this user.
pub open spec fn member_tells(
    ns: NamespaceView,
    channel: Seq<char>,
    id: Seq<char>,
    user_id: Seq<char>,
) -> bool {
    &&& ns.room(channel).sockets.contains(id)
    &&& ns.sockets.contains_key(id)
    &&& ns.sockets[id].state.presence matches Some(known)
    &&& known.contains_key(channel)
    &&& known[channel].user_id == user_id
}

/// A server that is asked to end the connections of a user does so, and says that it did: none of
/// them is connected afterwards, nor on any channel, and every other connection is as it was.
pub proof fn asked_server_ends_the_connections_of_a_user(
    adapter: HorizontalView,
    request: RequestView,
    answer: ResponseView,
    gone: Seq<WebSocket>,
    after: HorizontalView,
    user_id: Seq<char>,
    ids: Set<Seq<char>>,
    id: Seq<char>,
    c: Seq<char>,
)
    requires
        adapter.answers(request, answer, gone, after),
        request.request_type == RequestType::TerminateUserConnections,
        request.user_id == Some(user_id),
        space(adapter.spaces, request.app_id).users.contains_key(user_id),
        space(adapter.spaces, request.app_id).users[user_id] == ids,
        ids.finite(),
    ensures
        ({
            let ns = space(adapter.spaces, request.app_id);
            let now = space(after.spaces, request.app_id);
            &&& answer.request_id == request.request_id
            &&& answer.node_id == adapter.node_id
            &&& answer.app_id == request.app_id
            &&& answer.exists
            &&& answer.socket_ids.len() == 0
            &&& answer.sockets_count == 0
            &&& answer.members == Map::<Seq<char>, MemberView>::empty()
            &&& gone.len() == ids.len()
            &&& now.sockets.contains_key(id) <==> ns.sockets.contains_key(id) && !ids.contains(id)
            &&& now.sockets.contains_key(id) ==> now.sockets[id] == ns.sockets[id]
            &&& now.room(c).sockets.contains(id) <==> ns.room(c).sockets.contains(id)
                && !ids.contains(id)
        }),
{
    let ns = space(adapter.spaces, request.app_id);
    let order = choose|order: Seq<Seq<char>>| #[trigger]
        named_order(order, ids) && order.len() == gone.len();
    order.unique_seq_to_set();
    if ids == Set::<Seq<char>>::empty() {
        assert(!ids.contains(id));
    }
    if ns.channels.contains_key(c) {
        let rest = ns.channels[c].sockets.difference(ids);
        if ns.channels[c].sockets.contains(id) && !ids.contains(id) {
            assert(rest.contains(id));
        }
    }
}

/// A question is open for as long as the time allows, with the answers that it has got, and then is
/// not any more.
pub proof fn question_is_given_up_when_its_time_is_over(
    pending: Map<Seq<char>, PendingView>,
    timeout: u64,
    now: u128,
    request_id: Seq<char>,
)
    requires
        pending.contains_key(request_id),
    ensures
        without_stale(pending, timeout, now).contains_key(request_id) <==> now
            <= pending[request_id].start_time + timeout,
        now <= pending[request_id].start_time + timeout ==> without_stale(
            pending,
            timeout,
            now,
        )[request_id] == pending[request_id],
        without_stale(pending, timeout, now).submap_of(pending),
{
}

/// In a cluster, every server but the one that asks is waited for; a server that is alone waits for
/// none.
pub proof fn the_asking_server_is_not_waited_for(expected_node_count: usize)
    ensures
        expected_node_count >= 1 ==> others(expected_node_count) + 1 == expected_node_count,
        expected_node_count == 0 ==> others(expected_node_count) == 0,
{
}

/// Every question can be answered but the one to end the connections of a user of which one does not
/// exist any more.
pub proof fn question_can_be_answered(adapter: HorizontalView, request: RequestView)
    ensures
        request.request_type != RequestType::TerminateUserConnections ==> adapter.can_answer(
            request,
        ),
        request.user_id is None ==> adapter.can_answer(request),
        request.node_id == adapter.node_id ==> adapter.can_answer(request),
        request.user_id matches Some(user_id) && (forall|id: Seq<char>|
            space(adapter.spaces, request.app_id).users.contains_key(user_id) && #[trigger] space(
                adapter.spaces,
                request.app_id,
            ).users[user_id].contains(id) ==> space(
                adapter.spaces,
                request.app_id,
            ).sockets.contains_key(id)) ==> adapter.can_answer(request),
{
}

/// The counts of several answers add up one by one.
pub proof fn counts_add_up(responses: Seq<ResponseView>)
    ensures
        total_count(responses) == responses.fold_left(
            0int,
            |n: int, r: ResponseView| n + r.sockets_count,
        ),
    decreases responses.len(),
{
    if responses.len() > 0 {
        counts_add_up(responses.drop_last());
    }
}

/// A question that does not say what it is about is answered with nothing: one about a channel that
/// names none, one about a connection that names none, and one about a user that names none. It changes
/// nothing.
pub proof fn question_about_nothing_is_answered_with_nothing(
    adapter: HorizontalView,
    request: RequestView,
    answer: ResponseView,
    gone: Seq<WebSocket>,
    after: HorizontalView,
)
    requires
        adapter.answers(request, answer, gone, after),
        match request.request_type {
            RequestType::TerminateUserConnections => request.user_id is None,
            RequestType::SocketExistsInChannel => request.channel is None || request.socket_id
                is None,
            _ => request.channel is None,
        },
    ensures
        answer.request_id == request.request_id,
        answer.node_id == adapter.node_id,
        answer.app_id == request.app_id,
        answer.members == Map::<Seq<char>, MemberView>::empty(),
        answer.socket_ids.len() == 0,
        answer.sockets_count == 0,
        !answer.exists,
        gone.len() == 0,
        after == adapter,
{
}

} // verus!
