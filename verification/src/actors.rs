//! The decisions of the actors: the data store that joins fresh SIRI data and
//! keeps the latest, the central dispatch that knows every watching session,
//! and the sessions that pick the page to render for each data update.
use vstd::prelude::*;
use vstd::hash_map::StringHashMap;
use std::sync::Arc;
use crate::siri::SiriJourney;
use crate::objects::{LineReference, StopReference, PTData};
use crate::join::{joined_data, join_journeys, sortable_journeys};

verus! {

/// Shares the data behind an `Arc`: `Arc::clone`, which std documents as
/// making another pointer to the same allocation; the contract claims that
/// the result is the same value.
#[verifier::external_body]
fn share<T>(a: &Arc<T>) -> (res: Arc<T>)
    ensures
        res == *a,
{
    Arc::clone(a)
}

/// The central repository of the transit data: the referentials, and the
/// latest data joined from SIRI.
pub struct DataStore {
    pub pt_data: Option<Arc<PTData>>,
    pub line_referential: Arc<StringHashMap<LineReference>>,
    pub stop_referential: Arc<StringHashMap<StopReference>>,
}

impl DataStore {
    /// `next` is this store after a SIRI update with `vjs`, and `sent` the
    /// data it hands on: the join of `vjs` with the referentials, now the
    /// latest data.
    pub open spec fn updated(self, vjs: Seq<SiriJourney>, next: DataStore, sent: Arc<PTData>) -> bool {
        &&& joined_data(*sent, self.line_referential@, Some(self.stop_referential@), vjs)
        &&& sent.wf()
        &&& next.pt_data == Some(sent)
        &&& next.line_referential == self.line_referential
        &&& next.stop_referential == self.stop_referential
    }

    /// A store with the referentials and no data yet.
    pub fn new(
        line_referential: Arc<StringHashMap<LineReference>>,
        stop_referential: Arc<StringHashMap<StopReference>>,
    ) -> (res: DataStore)
        ensures
            res.pt_data is None,
            res.line_referential == line_referential,
            res.stop_referential == stop_referential,
    {
        DataStore { pt_data: None, line_referential, stop_referential }
    }

    /// Joins the SIRI journeys with the referentials: each journey goes to
    /// the line the line referential gives for it, with the names of its stops.
    pub fn join_siri_and_theorical(&self, vjs: &Vec<SiriJourney>) -> (res: PTData)
        requires
            sortable_journeys(self.line_referential@, vjs@),
        ensures
            joined_data(res, self.line_referential@, Some(self.stop_referential@), vjs@),
            res.wf(),
    {
        let lines: &StringHashMap<LineReference> = &self.line_referential;
        let stops: &StringHashMap<StopReference> = &self.stop_referential;
        join_journeys(lines, Some(stops), vjs)
    }

    /// Handles fresh SIRI data: joins it, keeps it as the latest data, and
    /// returns it for the central dispatch.
    pub fn handle_siri_update(&mut self, vjs: &Vec<SiriJourney>) -> (res: Arc<PTData>)
        requires
            sortable_journeys(old(self).line_referential@, vjs@),
        ensures
            old(self).updated(vjs@, *final(self), res),
    {
        let data = Arc::new(self.join_siri_and_theorical(vjs));
        self.pt_data = Some(share(&data));
        data
    }

    /// The latest data, if any.
    pub fn current_pt_data(&self) -> (res: Option<Arc<PTData>>)
        ensures
            res == self.pt_data,
    {
        match &self.pt_data {
            Some(d) => Some(share(d)),
            None => None,
        }
    }
}

/// The latest data that a store answers with after a SIRI update is the data
/// that the update joined and handed on.
pub proof fn law_current_after_update(
    before: DataStore,
    vjs: Seq<SiriJourney>,
    after: DataStore,
    sent: Arc<PTData>,
)
    requires
        before.updated(vjs, after, sent),
    ensures
        after.pt_data == Some(sent),
        joined_data(*after.pt_data->0, before.line_referential@, Some(before.stop_referential@), vjs),
{
}

/// The status of the service.
pub struct Status {
    pub nb_open_connections: usize,
}

/// The central dispatch: every session watching the data, in the order they
/// connected.
pub struct CentralDispatch<S> {
    pub sessions: Vec<S>,
}

impl<S> CentralDispatch<S> {
    /// A dispatch that no session watches yet.
    pub fn new() -> (res: Self)
        ensures
            res.sessions@ == Seq::<S>::empty(),
    {
        CentralDispatch { sessions: Vec::new() }
    }

    /// A new session watches the data.
    pub fn connect(&mut self, session: S)
        ensures
            final(self).sessions@ == old(self).sessions@.push(session),
    {
        self.sessions.push(session);
    }

    /// The sessions that a data update goes to: every connected session, in
    /// the order they connected.
    pub fn recipients(&self) -> (res: &Vec<S>)
        ensures
            res@ == self.sessions@,
    {
        &self.sessions
    }

    /// The status: the number of open connections.
    pub fn status(&self) -> (res: Status)
        ensures
            res.nb_open_connections == self.sessions.len(),
    {
        Status { nb_open_connections: self.sessions.len() }
    }
}

/// After a session connects, the status counts one more open connection, and
/// a data update reaches the new session as well as every earlier one.
pub proof fn law_connect_counts<S>(before: CentralDispatch<S>, session: S, after: CentralDispatch<S>)
    requires
        after.sessions@ == before.sessions@.push(session),
    ensures
        after.sessions.len() == before.sessions.len() + 1,
        after.sessions@.contains(session),
        forall|s: S| before.sessions@.contains(s) ==> after.sessions@.contains(s),
{
    let b = before.sessions@;
    let a = after.sessions@;
    assert(a[b.len() as int] == session);
    assert forall|s: S| b.contains(s) implies a.contains(s) by {
        let k = choose|k: int| 0 <= k < b.len() && b[k] == s;
        assert(a[k] == s);
    }
}

/// What a session watches: the list of lines, or one line by its id.
pub enum Watching {
    Index,
    Line(String),
}

/// The page a session renders for a data update.
pub enum Render {
    /// The list of all lines.
    LineList,
    /// The line at this position of the data.
    Line(usize),
    /// The watched line, by id, is not in the data.
    LineNotFound(String),
}

impl Render {
    /// The template of the page.
    pub fn template(&self) -> (res: &'static str)
        ensures
            res@ == match self {
                Render::LineList => "line_list.html"@,
                Render::Line(_) => "line.html"@,
                Render::LineNotFound(_) => "line_not_found.html"@,
            },
    {
        match self {
            Render::LineList => "line_list.html",
            Render::Line(_) => "line.html",
            Render::LineNotFound(_) => "line_not_found.html",
        }
    }
}

impl PTData {
    /// The position of the first line with this id, if the data has one.
    pub fn line_position(&self, id: &str) -> (res: Option<usize>)
        ensures
            match res {
                Some(i) => i < self.lines.len() && self.lines@[i as int].reference.id@ == id@
                    && forall|j: int| 0 <= j < i ==> #[trigger] self.lines@[j].reference.id@ != id@,
                None => forall|j: int|
                    0 <= j < self.lines.len() ==> #[trigger] self.lines@[j].reference.id@ != id@,
            },
    {
        let mut i: usize = 0;
        while i < self.lines.len()
            invariant
                i <= self.lines.len(),
                forall|j: int| 0 <= j < i ==> #[trigger] self.lines@[j].reference.id@ != id@,
            decreases self.lines.len() - i,
        {
            if str_equal(self.lines[i].reference.id.as_str(), id) {
                return Some(i);
            }
            i = i + 1;
        }
        None
    }
}

/// Whether two strings are equal.
pub fn str_equal(a: &str, b: &str) -> (res: bool)
    ensures
        res == (a@ == b@),
{
    let ac = crate::text::chars_of(a);
    let bc = crate::text::chars_of(b);
    if ac.len() != bc.len() {
        return false;
    }
    let mut k: usize = 0;
    while k < ac.len()
        invariant
            k <= ac.len(),
            ac.len() == bc.len(),
            ac@ == a@,
            bc@ == b@,
            forall|j: int| 0 <= j < k ==> ac@[j] == bc@[j],
        decreases ac.len() - k,
    {
        if ac[k] != bc[k] {
            return false;
        }
        k = k + 1;
    }
    proof {
        assert(a@ =~= b@);
    }
    true
}

/// The page for a data update: the line list for a session watching the
/// index; for one watching a line, that line where the data has it (the
/// first line of that id; the data that joining makes has one line per id),
/// and the "not found" page otherwise.
pub fn render_for(watching: &Watching, data: &PTData) -> (res: Render)
    ensures
        match watching {
            Watching::Index => res is LineList,
            Watching::Line(id) => match res {
                Render::Line(i) => i < data.lines.len() && data.lines@[i as int].reference.id@
                    == id@ && forall|j: int|
                    0 <= j < i ==> #[trigger] data.lines@[j].reference.id@ != id@,
                Render::LineNotFound(r) => r@ == id@ && forall|j: int|
                    0 <= j < data.lines.len() ==> #[trigger] data.lines@[j].reference.id@ != id@,
                Render::LineList => false,
            },
        },
{
    match watching {
        Watching::Index => Render::LineList,
        Watching::Line(id) => match data.line_position(id.as_str()) {
            Some(i) => Render::Line(i),
            None => Render::LineNotFound(id.clone()),
        },
    }
}

/// The kinds of websocket message a session receives.
pub enum WsMessage {
    Ping(Vec<u8>),
    Binary(Vec<u8>),
    Other,
}

/// What a session answers to a websocket message.
pub enum WsReply {
    /// A pong with the ping's payload.
    Pong(Vec<u8>),
    /// The same binary payload, sent back.
    Binary(Vec<u8>),
    /// No answer.
    Nothing,
}

/// A ping is answered with a pong of the same payload, a binary message is
/// echoed, and anything else is left unanswered.
pub fn ws_reply(msg: WsMessage) -> (res: WsReply)
    ensures
        match msg {
            WsMessage::Ping(p) => res matches WsReply::Pong(q) && q@ == p@,
            WsMessage::Binary(b) => res matches WsReply::Binary(c) && c@ == b@,
            WsMessage::Other => res is Nothing,
        },
{
    match msg {
        WsMessage::Ping(p) => WsReply::Pong(p),
        WsMessage::Binary(b) => WsReply::Binary(b),
        WsMessage::Other => WsReply::Nothing,
    }
}

} // verus!
