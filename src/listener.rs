//! Streams the peer opened, queued until the application accepts them.

use std::collections::VecDeque;
use std::task::Waker;
use vstd::prelude::*;
use crate::error::Error;
use crate::param::{wake, Readiness};

verus! {

/// The sending half of an accepted bidirectional stream: its send window is
/// set when it is accepted.
pub trait SendWindow {
    fn update_window(&mut self, max_data: u64);
}

/// The queues of streams the peer opened: bidirectional ones (`B`) and
/// unidirectional ones (`U`), each with the waker of a pending accept.
#[derive(Debug)]
pub struct RawListener<B, U> {
    pub bi_streams: VecDeque<(u64, B)>,
    pub uni_streams: VecDeque<(u64, U)>,
    pub bi_waker: Option<Waker>,
    pub uni_waker: Option<Waker>,
}

impl<B: SendWindow, U> RawListener<B, U> {
    pub fn new() -> (r: RawListener<B, U>)
        ensures
            r.bi_streams@.len() == 0,
            r.uni_streams@.len() == 0,
            r.bi_waker is None,
            r.uni_waker is None,
    {
        RawListener { bi_streams: VecDeque::new(), uni_streams: VecDeque::new(), bi_waker: None, uni_waker: None }
    }

    /// Queues a bidirectional stream and wakes a pending accept.
    pub fn push_bi_stream(&mut self, sid: u64, stream: B)
        ensures
            final(self).bi_streams@ == old(self).bi_streams@.push((sid, stream)),
            final(self).uni_streams@ == old(self).uni_streams@,
            final(self).bi_waker is None,
            final(self).uni_waker == old(self).uni_waker,
    {
        self.bi_streams.push_back((sid, stream));
        if let Some(w) = self.bi_waker.take() {
            wake(w);
        }
    }

    /// Queues a unidirectional stream and wakes a pending accept.
    pub fn push_recv_stream(&mut self, sid: u64, stream: U)
        ensures
            final(self).uni_streams@ == old(self).uni_streams@.push((sid, stream)),
            final(self).bi_streams@ == old(self).bi_streams@,
            final(self).uni_waker is None,
            final(self).bi_waker == old(self).bi_waker,
    {
        self.uni_streams.push_back((sid, stream));
        if let Some(w) = self.uni_waker.take() {
            wake(w);
        }
    }

    /// The oldest queued bidirectional stream, its send window set to
    /// `send_wnd_size`; otherwise the waker is kept for the next push.
    pub fn poll_accept_bi_stream(&mut self, waker: Waker, send_wnd_size: u64) -> (r: Readiness<(u64, B)>)
        ensures
            old(self).bi_streams@.len() > 0 ==> (r matches Readiness::Ready((sid, _)) && sid == old(self).bi_streams@[0].0
                && final(self).bi_streams@ == old(self).bi_streams@.subrange(1, old(self).bi_streams@.len() as int)
                && final(self).bi_waker == old(self).bi_waker),
            old(self).bi_streams@.len() == 0 ==> (r is Pending && final(self).bi_streams@ == old(self).bi_streams@
                && final(self).bi_waker == Some(waker)),
            final(self).uni_streams@ == old(self).uni_streams@,
            final(self).uni_waker == old(self).uni_waker,
    {
        match self.bi_streams.pop_front() {
            Some((sid, stream)) => {
                let mut stream = stream;
                stream.update_window(send_wnd_size);
                Readiness::Ready((sid, stream))
            },
            None => {
                self.bi_waker = Some(waker);
                Readiness::Pending
            },
        }
    }

    /// The oldest queued unidirectional stream; otherwise the waker is kept
    /// for the next push.
    pub fn poll_accept_recv_stream(&mut self, waker: Waker) -> (r: Readiness<(u64, U)>)
        ensures
            old(self).uni_streams@.len() > 0 ==> (r matches Readiness::Ready(x) && x == old(self).uni_streams@[0]
                && final(self).uni_streams@ == old(self).uni_streams@.subrange(1, old(self).uni_streams@.len() as int)
                && final(self).uni_waker == old(self).uni_waker),
            old(self).uni_streams@.len() == 0 ==> (r is Pending && final(self).uni_streams@ == old(self).uni_streams@
                && final(self).uni_waker == Some(waker)),
            final(self).bi_streams@ == old(self).bi_streams@,
            final(self).bi_waker == old(self).bi_waker,
    {
        match self.uni_streams.pop_front() {
            Some(x) => Readiness::Ready(x),
            None => {
                self.uni_waker = Some(waker);
                Readiness::Pending
            },
        }
    }
}

/// The listener as it stands behind its lock: working, or failed for good
/// with the connection error.
#[derive(Debug)]
pub struct ArcListener<B, U> {
    pub inner: Result<RawListener<B, U>, Error>,
}

/// A request to accept a bidirectional stream with the given send window.
#[derive(Clone, Copy, Debug)]
pub struct AcceptBiStream {
    pub send_wnd_size: u64,
}

/// A request to accept a unidirectional stream.
#[derive(Clone, Copy, Debug)]
pub struct AcceptUniStream {}

impl<B: SendWindow, U> ArcListener<B, U> {
    pub fn new() -> (r: ArcListener<B, U>)
        ensures
            r.inner matches Ok(l) && l.bi_streams@.len() == 0 && l.uni_streams@.len() == 0,
    {
        ArcListener { inner: Ok(RawListener::new()) }
    }

    /// The connection error once the listener failed; `Ok` while streams may
    /// still be pushed.
    pub fn guard(&self) -> (r: Result<(), Error>)
        ensures
            r is Ok <==> self.inner is Ok,
            r matches Err(e) ==> self.inner == Err::<RawListener<B, U>, Error>(e),
    {
        match &self.inner {
            Ok(_) => Ok(()),
            Err(e) => Err(*e),
        }
    }

    pub fn accept_bi_stream(&self, send_wnd_size: u64) -> (r: AcceptBiStream)
        ensures
            r.send_wnd_size == send_wnd_size,
    {
        AcceptBiStream { send_wnd_size }
    }

    pub fn accept_uni_stream(&self) -> AcceptUniStream {
        AcceptUniStream {}
    }

    /// Accepts a bidirectional stream, or the connection error once the
    /// listener failed.
    pub fn poll_accept_bi_stream(&mut self, waker: Waker, send_wnd_size: u64) -> (r: Readiness<Result<(u64, B), Error>>)
        ensures
            old(self).inner matches Err(e) ==> (r matches Readiness::Ready(Err(x)) && x == e),
            old(self).inner matches Ok(l) ==> (final(self).inner matches Ok(m) && (l.bi_streams@.len() > 0 <==> r matches Readiness::Ready(Ok(_)))
                && (l.bi_streams@.len() > 0 ==> m.bi_streams@ == l.bi_streams@.subrange(1, l.bi_streams@.len() as int) && (r matches Readiness::Ready(Ok((sid, _))) && sid == l.bi_streams@[0].0))
                && (l.bi_streams@.len() == 0 ==> r is Pending && m.bi_streams@ == l.bi_streams@ && m.bi_waker == Some(waker))),
    {
        match &mut self.inner {
            Ok(l) => match l.poll_accept_bi_stream(waker, send_wnd_size) {
                Readiness::Ready(x) => Readiness::Ready(Ok(x)),
                Readiness::Pending => Readiness::Pending,
            },
            Err(e) => Readiness::Ready(Err(*e)),
        }
    }

    /// Accepts a unidirectional stream, or the connection error once the
    /// listener failed.
    pub fn poll_accept_uni_stream(&mut self, waker: Waker) -> (r: Readiness<Result<(u64, U), Error>>)
        ensures
            old(self).inner matches Err(e) ==> (r matches Readiness::Ready(Err(x)) && x == e),
            old(self).inner matches Ok(l) ==> (final(self).inner matches Ok(m) && (l.uni_streams@.len() > 0 <==> r matches Readiness::Ready(Ok(_)))
                && (l.uni_streams@.len() > 0 ==> m.uni_streams@ == l.uni_streams@.subrange(1, l.uni_streams@.len() as int) && (r matches Readiness::Ready(Ok(x)) && x == l.uni_streams@[0]))
                && (l.uni_streams@.len() == 0 ==> r is Pending && m.uni_streams@ == l.uni_streams@ && m.uni_waker == Some(waker))),
    {
        match &mut self.inner {
            Ok(l) => match l.poll_accept_recv_stream(waker) {
                Readiness::Ready(x) => Readiness::Ready(Ok(x)),
                Readiness::Pending => Readiness::Pending,
            },
            Err(e) => Readiness::Ready(Err(*e)),
        }
    }

    /// Queues a bidirectional stream the peer opened.
    pub fn push_bi_stream(&mut self, sid: u64, stream: B)
        requires
            old(self).inner is Ok,
        ensures
            final(self).inner matches Ok(m) && m.bi_streams@ == old(self).inner->Ok_0.bi_streams@.push((sid, stream)),
    {
        match &mut self.inner {
            Ok(l) => l.push_bi_stream(sid, stream),
            Err(_) => {},
        }
    }

    /// Queues a unidirectional stream the peer opened.
    pub fn push_uni_stream(&mut self, sid: u64, stream: U)
        requires
            old(self).inner is Ok,
        ensures
            final(self).inner matches Ok(m) && m.uni_streams@ == old(self).inner->Ok_0.uni_streams@.push((sid, stream)),
    {
        match &mut self.inner {
            Ok(l) => l.push_recv_stream(sid, stream),
            Err(_) => {},
        }
    }

    /// Fails the listener with the connection error, waking pending accepts.
    pub fn on_conn_error(&mut self, e: &Error)
        requires
            old(self).inner is Ok,
        ensures
            final(self).inner == Err::<RawListener<B, U>, Error>(*e),
    {
        match &mut self.inner {
            Ok(l) => {
                if let Some(w) = l.bi_waker.take() {
                    wake(w);
                }
                if let Some(w) = l.uni_waker.take() {
                    wake(w);
                }
            },
            Err(_) => {},
        }
        self.inner = Err(*e);
    }
}

impl AcceptBiStream {
    /// Polls the listener for the stream this request waits for.
    pub fn poll<B: SendWindow, U>(&self, listener: &mut ArcListener<B, U>, waker: Waker) -> (r: Readiness<Result<(u64, B), Error>>)
        ensures
            old(listener).inner matches Err(e) ==> (r matches Readiness::Ready(Err(x)) && x == e),
            old(listener).inner matches Ok(l) ==> (final(listener).inner matches Ok(m) && (l.bi_streams@.len() > 0 <==> r matches Readiness::Ready(Ok(_)))
                && (l.bi_streams@.len() > 0 ==> m.bi_streams@ == l.bi_streams@.subrange(1, l.bi_streams@.len() as int) && (r matches Readiness::Ready(Ok((sid, _))) && sid == l.bi_streams@[0].0))
                && (l.bi_streams@.len() == 0 ==> r is Pending && m.bi_streams@ == l.bi_streams@ && m.bi_waker == Some(waker))),
    {
        listener.poll_accept_bi_stream(waker, self.send_wnd_size)
    }
}

impl AcceptUniStream {
    /// Polls the listener for the stream this request waits for.
    pub fn poll<B: SendWindow, U>(&self, listener: &mut ArcListener<B, U>, waker: Waker) -> (r: Readiness<Result<(u64, U), Error>>)
        ensures
            old(listener).inner matches Err(e) ==> (r matches Readiness::Ready(Err(x)) && x == e),
            old(listener).inner matches Ok(l) ==> (final(listener).inner matches Ok(m) && (l.uni_streams@.len() > 0 <==> r matches Readiness::Ready(Ok(_)))
                && (l.uni_streams@.len() > 0 ==> m.uni_streams@ == l.uni_streams@.subrange(1, l.uni_streams@.len() as int) && (r matches Readiness::Ready(Ok(x)) && x == l.uni_streams@[0]))
                && (l.uni_streams@.len() == 0 ==> r is Pending && m.uni_streams@ == l.uni_streams@ && m.uni_waker == Some(waker))),
    {
        listener.poll_accept_uni_stream(waker)
    }
}

} // verus!
