//! A client session: what the window manager does with what it reads from
//! one client, and what it answers.
//!
//! Reading and writing the socket is left to the caller. The session takes
//! what was read and says what to do next: send a reply, allocate the shared
//! memory of a new window and come back with its key, or end the session.

use vstd::prelude::*;
use crate::com::packet::PacketParseErr;
use crate::com::request::{CreateWindow, Request};
use crate::com::response::error::ResponseError;
use crate::com::response::{CreateWindowResp, OkResponse, Response};
use crate::fb::Pixel;
use crate::ids::{WinID, MAX_WINDOW_ID};
use crate::window::store::spec_room;
use crate::window::{PipeId, Window, WindowKind, Windows};

verus! {

/// The kinds of failure of a read or a write that the session tells apart.
#[derive(Debug, Clone, Copy, PartialEq, Eq, Structural)]
pub enum IoFailure {
    /// The peer closed the connection in an orderly way.
    ConnectionAborted,
    /// The peer reset the connection.
    ConnectionReset,
    /// Any other failure.
    Other,
}

/// Why no request could be had from a client.
#[derive(Debug, Clone, Copy, PartialEq, Eq, Structural)]
pub enum ReadError {
    /// A packet was read and is no request.
    ParseErr(PacketParseErr),
    /// Nothing could be read.
    IOError(IoFailure),
}

/// What the session asks its caller to do next.
#[derive(Debug, Clone, Copy, PartialEq, Eq, Structural)]
pub enum SessionStep {
    /// Send the response, then read the next request.
    Reply(Response),
    /// Allocate shared memory for the pixels of the window that the request
    /// asks for, and hand the key to [`ClientSession::window_allocated`].
    Allocate(CreateWindow),
    /// End the session: see [`ClientSession::disconnect`].
    Disconnect,
}

/// The request in what was read from the socket: a packet that was read is
/// decoded, a failed read is handed on.
pub fn receive_request(read: Result<&[u8], IoFailure>) -> (request: Result<Request, ReadError>)
    ensures
        request == match read {
            Ok(bytes) => match Request::spec_decode(bytes@) {
                Ok(request) => Ok(request),
                Err(e) => Err(ReadError::ParseErr(e)),
            },
            Err(kind) => Err(ReadError::IOError(kind)),
        },
{
    match read {
        Ok(bytes) => match Request::decode(bytes) {
            Ok(request) => Ok(request),
            Err(e) => Err(ReadError::ParseErr(e)),
        },
        Err(kind) => Err(ReadError::IOError(kind)),
    }
}

/// The bytes to write to the socket for `response`: the packet without the
/// zeroes that fill the buffer behind it.
pub fn send_response(response: &Response) -> (bytes: Vec<u8>)
    ensures
        bytes@ == response.spec_encode(),
{
    let (buffer, len) = response.encode();
    proof {
        crate::com::response::lemma_response_len(*response);
    }
    let mut bytes: Vec<u8> = Vec::new();
    let mut i: usize = 0;
    while i < len
        invariant
            i <= len,
            len <= buffer@.len(),
            bytes@ == buffer@.subrange(0, i as int),
        decreases len - i,
    {
        bytes.push(buffer[i]);
        assert(bytes@ =~= buffer@.subrange(0, i + 1));
        i += 1;
    }
    bytes
}

/// Whether an event that could not be sent is dropped without a word: that
/// is so when the client has gone, and any other failure is worth a line in
/// the log. The event is dropped either way.
pub fn event_dropped_silently(failure: IoFailure) -> (silent: bool)
    ensures
        silent == (failure == IoFailure::ConnectionAborted || failure
            == IoFailure::ConnectionReset),
{
    match failure {
        IoFailure::ConnectionAborted => true,
        IoFailure::ConnectionReset => true,
        IoFailure::Other => false,
    }
}

/// Whether a session that ends on this failure of a read ends in an orderly
/// way; any other failure is worth a line in the log.
pub fn orderly_disconnect(failure: IoFailure) -> (orderly: bool)
    ensures
        orderly == (failure == IoFailure::ConnectionAborted),
{
    match failure {
        IoFailure::ConnectionAborted => true,
        _ => false,
    }
}

/// Whether the window that `request` asks for can be held in memory: its far
/// edges and the number of its pixels are in the range of the machine's
/// word.
pub open spec fn spec_window_fits(request: CreateWindow) -> bool {
    &&& request.x + request.width <= usize::MAX
    &&& request.y + request.height <= usize::MAX
    &&& request.width * request.height <= usize::MAX
}

/// Whether the window that `request` asks for can be held in memory.
pub fn window_fits(request: &CreateWindow) -> (fits: bool)
    ensures
        fits == spec_window_fits(*request),
{
    let limit: u64 = usize::MAX as u64;
    assert(request.width * request.height <= 0xFFFF_FFFF * 0xFFFF_FFFF) by (nonlinear_arith)
        requires
            0 <= request.width <= 0xFFFF_FFFF,
            0 <= request.height <= 0xFFFF_FFFF,
    ;
    request.x as u64 + request.width as u64 <= limit && request.y as u64 + request.height as u64
        <= limit && request.width as u64 * request.height as u64 <= limit
}

/// The session of one client.
pub struct ClientSession {
    /// The connection to the client.
    pipe: PipeId,
    /// The windows that the client has created.
    window_ids: Vec<WinID>,
}

impl ClientSession {
    /// The connection to the client.
    pub closed spec fn spec_pipe(&self) -> PipeId {
        self.pipe
    }

    /// The windows that the client has created, oldest first.
    pub closed spec fn spec_window_ids(&self) -> Seq<WinID> {
        self.window_ids@
    }

    /// A session on the connection `pipe` that has created no window.
    pub fn new(pipe: PipeId) -> (session: Self)
        ensures
            session.spec_pipe() == pipe,
            session.spec_window_ids() == Seq::<WinID>::empty(),
    {
        Self { pipe, window_ids: Vec::new() }
    }

    /// The connection to the client.
    pub fn pipe(&self) -> (pipe: PipeId)
        ensures
            pipe == self.spec_pipe(),
    {
        self.pipe
    }

    /// The windows that the client has created, oldest first.
    pub fn window_ids(&self) -> (ids: &Vec<WinID>)
        ensures
            ids@ == self.spec_window_ids(),
    {
        &self.window_ids
    }

    /// What the session does with what was read, and what it asks for next.
    ///
    /// * A ping is answered with success.
    /// * Damage is recorded in the store and answered with success, or with
    ///   `UnknownWindow` when there is no such window.
    /// * A request for a window asks the caller for shared memory, or is
    ///   answered with `UnknownFatalError` when the window cannot be held in
    ///   memory.
    /// * A packet that is no request is answered with the error that says
    ///   why.
    /// * A failed read ends the session.
    pub open spec fn spec_handle_request(
        before: &Windows,
        after: &Windows,
        received: Result<Request, ReadError>,
        step: SessionStep,
    ) -> bool {
        match received {
            Ok(Request::Ping(_)) => {
                &&& step == SessionStep::Reply(Response::Accepted(OkResponse::Success))
                &&& before.same_state(after)
            },
            Ok(Request::CreateWindow(request)) => {
                &&& step == if spec_window_fits(request) {
                    SessionStep::Allocate(request)
                } else {
                    SessionStep::Reply(Response::Rejected(ResponseError::UnknownFatalError))
                }
                &&& before.same_state(after)
            },
            Ok(Request::DamageWindow(damage)) => {
                let known = before.table().contains_key(damage.win_id);
                &&& step == SessionStep::Reply(
                    if known {
                        Response::Accepted(OkResponse::Success)
                    } else {
                        Response::Rejected(ResponseError::UnknownWindow)
                    },
                )
                &&& before.spec_damage_window(
                    after,
                    damage.win_id,
                    damage.x as usize,
                    damage.y as usize,
                    damage.width as usize,
                    damage.height as usize,
                    known,
                )
            },
            Err(ReadError::ParseErr(e)) => {
                &&& step == SessionStep::Reply(
                    Response::Rejected(ResponseError::spec_from_parse_err(e)),
                )
                &&& before.same_state(after)
            },
            Err(ReadError::IOError(_)) => {
                &&& step == SessionStep::Disconnect
                &&& before.same_state(after)
            },
        }
    }

    /// Handles what was read from the client; see
    /// [`Self::spec_handle_request`].
    pub fn handle_request(&self, windows: &mut Windows, received: Result<Request, ReadError>) -> (step:
        SessionStep)
        requires
            old(windows).wf(),
        ensures
            final(windows).wf(),
            old(windows).focus_is_topmost() ==> final(windows).focus_is_topmost(),
            Self::spec_handle_request(old(windows), final(windows), received, step),
    {
        match received {
            Ok(Request::Ping(_)) => SessionStep::Reply(Response::Accepted(OkResponse::Success)),
            Ok(Request::CreateWindow(request)) => {
                if window_fits(&request) {
                    SessionStep::Allocate(request)
                } else {
                    SessionStep::Reply(Response::Rejected(ResponseError::UnknownFatalError))
                }
            },
            Ok(Request::DamageWindow(damage)) => {
                let done = windows.damage_window(
                    damage.win_id(),
                    damage.x() as usize,
                    damage.y() as usize,
                    damage.width() as usize,
                    damage.height() as usize,
                );
                match done {
                    Ok(()) => SessionStep::Reply(Response::Accepted(OkResponse::Success)),
                    Err(()) => SessionStep::Reply(Response::Rejected(ResponseError::UnknownWindow)),
                }
            },
            Err(ReadError::ParseErr(e)) => SessionStep::Reply(
                Response::Rejected(ResponseError::from(e)),
            ),
            Err(ReadError::IOError(_)) => SessionStep::Disconnect,
        }
    }

    /// Whether `window` is the window that the session makes for `request`
    /// with shared memory under `shm_key`: black and opaque, of the size
    /// and at the place that the request names, owned by this session.
    pub open spec fn spec_new_window(
        &self,
        request: CreateWindow,
        shm_key: usize,
        window: Window,
    ) -> bool {
        &&& window.wf()
        &&& window.spec_pos_x() == request.x
        &&& window.spec_pos_y() == request.y
        &&& window.spec_width() == request.width
        &&& window.spec_height() == request.height
        &&& window.spec_pixels() == Seq::new(
            (request.width * request.height) as nat,
            |i: int| Pixel { blue: 0, green: 0, red: 0, alpha: 0xFF },
        )
        &&& window.spec_shm_key() == shm_key
        &&& window.spec_com_pipe() == Some(self.spec_pipe())
    }

    /// What [`Self::window_allocated`] does. Without shared memory, with a
    /// window that cannot be held in memory, or with no id left in the
    /// store the answer is `UnknownFatalError` and nothing changes.
    /// Otherwise the window of [`Self::spec_new_window`] is added to the
    /// store as a normal window, the session remembers its id, and the
    /// answer names the id and the key.
    pub open spec fn spec_window_allocated(
        &self,
        after: &ClientSession,
        before: &Windows,
        store: &Windows,
        request: CreateWindow,
        shm_key: Option<usize>,
        response: Response,
    ) -> bool {
        let full = forall|any: WinID| any < MAX_WINDOW_ID ==> before.table().contains_key(any);
        &&& after.spec_pipe() == self.spec_pipe()
        &&& if shm_key is None || !spec_window_fits(request) || full {
            &&& response == Response::Rejected(ResponseError::UnknownFatalError)
            &&& before.same_state(store)
            &&& after.spec_window_ids() == self.spec_window_ids()
        } else {
            exists|id: WinID, window: Window|
                {
                    &&& self.spec_new_window(request, shm_key.unwrap(), window)
                    &&& #[trigger] before.spec_window_added(store, id, window, WindowKind::Normal)
                    &&& before.spec_focus_moved_to_new(store, id)
                    &&& response == Response::Accepted(
                        OkResponse::WindowCreated(
                            CreateWindowResp {
                                shm_key: shm_key.unwrap(),
                                win_id: id,
                                pad0: 0,
                                pad1: 0,
                            },
                        ),
                    )
                    &&& after.spec_window_ids() == self.spec_window_ids().push(id)
                    &&& forall|lower: WinID| lower < id ==> before.table().contains_key(lower)
                }
        }
    }

    /// Goes on with a request for a window once the caller has tried to
    /// allocate its shared memory: `shm_key` is the key, or `None` when the
    /// allocation failed. Returns the response to send; see
    /// [`Self::spec_window_allocated`].
    pub fn window_allocated(
        &mut self,
        windows: &mut Windows,
        request: CreateWindow,
        shm_key: Option<usize>,
    ) -> (response: Response)
        requires
            old(windows).wf(),
        ensures
            final(windows).wf(),
            old(windows).focus_is_topmost() ==> final(windows).focus_is_topmost(),
            old(self).spec_window_allocated(
                final(self),
                old(windows),
                final(windows),
                request,
                shm_key,
                response,
            ),
    {
        let shm_key = match shm_key {
            Some(shm_key) => shm_key,
            None => {
                return Response::Rejected(ResponseError::UnknownFatalError);
            },
        };
        if !window_fits(&request) {
            return Response::Rejected(ResponseError::UnknownFatalError);
        }
        let height = request.height() as usize;
        let width = request.width() as usize;
        let pos_x = request.x() as usize;
        let pos_y = request.y() as usize;

        let window = Window::new_filled_with(
            pos_x,
            pos_y,
            width,
            height,
            Pixel::from_rgba(0, 0, 0, 0xFF),
        ).with_com_pipe(self.pipe).with_shm_key(shm_key);
        let ghost made = window;
        proof {
            made.lemma_wf();
            assert(made.spec_pixels() =~= Seq::new(
                (request.width * request.height) as nat,
                |i: int| Pixel { blue: 0, green: 0, red: 0, alpha: 0xFF },
            ));
        }
        match windows.add_window(window, WindowKind::Normal) {
            Some(id) => {
                self.window_ids.push(id);
                proof {
                    assert(old(windows).spec_window_added(windows, id, made, WindowKind::Normal));
                }
                Response::Accepted(OkResponse::WindowCreated(CreateWindowResp::new(id, shm_key)))
            },
            None => Response::Rejected(ResponseError::UnknownFatalError),
        }
    }

    /// What [`Self::disconnect`] does to the store: the windows `ids` are
    /// removed one after the other; an id without a window changes nothing.
    pub open spec fn spec_all_removed(before: Windows, after: Windows, ids: Seq<WinID>) -> bool
        decreases ids.len(),
    {
        if ids.len() == 0 {
            before.same_state(&after)
        } else {
            exists|mid: Windows|
                {
                    &&& Self::spec_all_removed(before, mid, ids.drop_last())
                    &&& #[trigger] mid.spec_remove_window(
                        &after,
                        ids.last(),
                        mid.table().contains_key(ids.last()),
                    )
                }
        }
    }

    /// The ids of `ids` for which [`Self::disconnect`] finds no window, in
    /// their order: those that have no window in `table`, and those that
    /// stand in `ids` a second time.
    pub open spec fn spec_missing(table: Set<WinID>, ids: Seq<WinID>) -> Seq<WinID>
        decreases ids.len(),
    {
        if ids.len() == 0 {
            ids
        } else if table.contains(ids.last()) && !ids.drop_last().contains(ids.last()) {
            Self::spec_missing(table, ids.drop_last())
        } else {
            Self::spec_missing(table, ids.drop_last()).push(ids.last())
        }
    }

    /// Removing one more window goes on from what removing the windows
    /// before it has led to.
    proof fn lemma_removed_one_more(before: Windows, mid: Windows, after: Windows, ids: Seq<WinID>)
        requires
            ids.len() > 0,
            Self::spec_all_removed(before, mid, ids.drop_last()),
            mid.spec_remove_window(&after, ids.last(), mid.table().contains_key(ids.last())),
        ensures
            Self::spec_all_removed(before, after, ids),
    {
    }

    /// Ends the session: removes every window that the client has created
    /// from the store, oldest first. Returns the ids that had no window any
    /// more. The session remembers no window afterwards.
    pub fn disconnect(&mut self, windows: &mut Windows) -> (missing: Vec<WinID>)
        requires
            old(windows).wf(),
        ensures
            final(windows).wf(),
            old(windows).focus_is_topmost() ==> final(windows).focus_is_topmost(),
            final(self).spec_pipe() == old(self).spec_pipe(),
            final(self).spec_window_ids() == Seq::<WinID>::empty(),
            Self::spec_all_removed(*old(windows), *final(windows), old(self).spec_window_ids()),
            forall|id: WinID|
                old(self).spec_window_ids().contains(id) ==> !final(windows).table().contains_key(
                    id,
                ),
            missing@ == Self::spec_missing(
                old(windows).table().dom(),
                old(self).spec_window_ids(),
            ),
    {
        let mut window_ids: Vec<WinID> = Vec::new();
        std::mem::swap(&mut window_ids, &mut self.window_ids);
        let mut missing: Vec<WinID> = Vec::new();
        let mut i: usize = 0;
        while i < window_ids.len()
            invariant
                i <= window_ids@.len(),
                windows.wf(),
                old(windows).focus_is_topmost() ==> windows.focus_is_topmost(),
                Self::spec_all_removed(
                    *old(windows),
                    *windows,
                    window_ids@.subrange(0, i as int),
                ),
                forall|k: int| 0 <= k < i ==> !windows.table().contains_key(#[trigger] window_ids@[k]),
                forall|id: WinID|
                    windows.table().contains_key(id) <==> (old(windows).table().contains_key(id)
                        && !window_ids@.subrange(0, i as int).contains(id)),
                missing@ == Self::spec_missing(
                    old(windows).table().dom(),
                    window_ids@.subrange(0, i as int),
                ),
            decreases window_ids@.len() - i,
        {
            let id = window_ids[i];
            let ghost mid = *windows;
            match windows.remove_window(id) {
                Ok(()) => {},
                Err(()) => {
                    missing.push(id);
                },
            }
            proof {
                assert(window_ids@.subrange(0, i + 1).drop_last() =~= window_ids@.subrange(
                    0,
                    i as int,
                ));
                let upto = window_ids@.subrange(0, i + 1);
                assert(upto.last() == id);
                assert(Self::spec_all_removed(*old(windows), mid, upto.drop_last()));
                Self::lemma_removed_one_more(*old(windows), mid, *windows, upto);
                let before = window_ids@.subrange(0, i as int);
                assert forall|other: WinID|
                    windows.table().contains_key(other) <==> (old(windows).table().contains_key(
                        other,
                    ) && !upto.contains(other)) by {
                    if upto.contains(other) {
                        let k = choose|k: int| 0 <= k < upto.len() && upto[k] == other;
                        if k < i {
                            assert(before[k] == other);
                            assert(before.contains(other));
                        }
                    }
                    if before.contains(other) {
                        let k = choose|k: int| 0 <= k < before.len() && before[k] == other;
                        assert(upto[k] == other);
                    }
                    if other == id {
                        assert(upto[i as int] == other);
                    }
                }
                assert forall|k: int| 0 <= k < i + 1 implies !windows.table().contains_key(
                    #[trigger] window_ids@[k],
                ) by {
                    if k < i {
                        assert(!mid.table().contains_key(window_ids@[k]));
                    }
                }
            }
            i += 1;
        }
        proof {
            assert(window_ids@.subrange(0, i as int) =~= window_ids@);
            assert forall|id: WinID| window_ids@.contains(id) implies !windows.table().contains_key(
                id,
            ) by {
                let k = choose|k: int| 0 <= k < window_ids@.len() && window_ids@[k] == id;
                assert(!windows.table().contains_key(window_ids@[k]));
            }
        }
        missing
    }
}

} // verus!
