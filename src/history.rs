use crate::dto::{copy_messages, Message};
use vstd::prelude::*;

verus! {

/// The last `limit` entries of a transcript, in their order; all of it when it is shorter.
pub open spec fn last_entries(messages: Seq<Message>, limit: nat) -> Seq<Message> {
    if messages.len() > limit {
        messages.subrange(messages.len() - limit, messages.len() as int)
    } else {
        messages
    }
}

/// A store of the transcript between conversation turns.
pub trait History {
    type Err;

    /// The transcript that a read returns. A store implemented outside verified
    /// code gets the default: one fixed value that the library knows nothing of.
    closed spec fn stored(&self) -> Seq<Message> {
        arbitrary()
    }

    /// What the store holds after `messages` is written to it. A store
    /// implemented outside verified code gets the default: for each `messages`,
    /// one fixed value that the library knows nothing of.
    closed spec fn kept(&self, messages: Seq<Message>) -> Seq<Message> {
        arbitrary()
    }

    /// Reads the stored transcript.
    fn read(&mut self) -> (r: Result<Vec<Message>, Self::Err>)
        ensures
            r is Ok ==> r->Ok_0@ == old(self).stored(),
            r is Ok ==> final(self).stored() == old(self).stored(),
    ;

    /// Replaces the stored transcript by `messages`.
    fn write(&mut self, messages: &[Message]) -> (r: Result<(), Self::Err>)
        ensures
            r is Ok ==> final(self).stored() == old(self).kept(messages@),
    ;
}

/// A store that keeps nothing.
#[derive(Default)]
pub struct NoopHistory;

impl History for NoopHistory {
    type Err = std::convert::Infallible;

    open spec fn stored(&self) -> Seq<Message> {
        Seq::empty()
    }

    open spec fn kept(&self, messages: Seq<Message>) -> Seq<Message> {
        Seq::empty()
    }

    fn read(&mut self) -> (r: Result<Vec<Message>, Self::Err>)
        ensures
            r is Ok,
    {
        Ok(Vec::new())
    }

    fn write(&mut self, messages: &[Message]) -> (r: Result<(), Self::Err>)
        ensures
            r is Ok,
    {
        Ok(())
    }
}

/// A store that wraps another and keeps a snapshot of the transcript, so that
/// the inner store is read once.
pub struct CachedHistory<H: History> {
    history: H,
    cache: Option<Vec<Message>>,
    inner_reads: Ghost<nat>,
}

impl<H: History> CachedHistory<H> {
    /// The wrapped store.
    pub closed spec fn inner(&self) -> H {
        self.history
    }

    /// The snapshot, once there is one.
    pub closed spec fn snapshot(&self) -> Option<Seq<Message>> {
        match self.cache {
            Some(c) => Some(c@),
            None => None,
        }
    }

    /// How many times the inner store has been read through this cache.
    pub closed spec fn inner_reads(&self) -> nat {
        self.inner_reads@
    }

    pub fn new(history: H) -> (r: Self)
        ensures
            r.inner() == history,
            r.snapshot() is None,
            r.inner_reads() == 0,
    {
        CachedHistory { history, cache: None, inner_reads: Ghost(0) }
    }
}

/// What a successful read of a cache does to it: it leaves a snapshot behind,
/// and it reads the inner store only when there was none.
pub open spec fn cached_read_step<H: History>(
    before: CachedHistory<H>,
    after: CachedHistory<H>,
) -> bool {
    &&& after.snapshot() is Some
    &&& before.snapshot() is Some ==> after.inner_reads() == before.inner_reads()
    &&& before.snapshot() is None ==> after.inner_reads() == before.inner_reads() + 1
}

impl<H: History> History for CachedHistory<H> {
    type Err = H::Err;

    open spec fn stored(&self) -> Seq<Message> {
        match self.snapshot() {
            Some(c) => c,
            None => self.inner().stored(),
        }
    }

    open spec fn kept(&self, messages: Seq<Message>) -> Seq<Message> {
        messages
    }

    fn read(&mut self) -> (r: Result<Vec<Message>, Self::Err>)
        ensures
            r is Ok ==> cached_read_step(*old(self), *final(self)),
            old(self).snapshot() is Some ==> r is Ok && *final(self) == *old(self),
            r is Err ==> final(self).snapshot() is None,
            old(self).snapshot() is None ==> final(self).inner_reads() == old(self).inner_reads() + 1,
    {
        match &self.cache {
            Some(cache) => Ok(copy_messages(cache.as_slice())),
            None => {
                let read = self.history.read();
                self.inner_reads = Ghost(self.inner_reads@ + 1);
                match read {
                    Ok(messages) => {
                        self.cache = Some(copy_messages(messages.as_slice()));
                        Ok(messages)
                    },
                    Err(e) => Err(e),
                }
            },
        }
    }

    fn write(&mut self, messages: &[Message]) -> (r: Result<(), Self::Err>)
        ensures
            r is Ok ==> final(self).inner().stored() == old(self).inner().kept(messages@),
            r is Ok ==> final(self).snapshot() == Some(messages@),
            r is Err ==> final(self).snapshot() == old(self).snapshot(),
            final(self).inner_reads() == old(self).inner_reads(),
    {
        match self.history.write(messages) {
            Ok(()) => {
                self.cache = Some(copy_messages(messages));
                Ok(())
            },
            Err(e) => Err(e),
        }
    }
}

/// However many successful reads follow one another on a fresh cache, the
/// inner store is read exactly once.
pub proof fn lemma_cache_reads_inner_once<H: History>(states: Seq<CachedHistory<H>>)
    requires
        states.len() >= 2,
        states[0].snapshot() is None,
        states[0].inner_reads() == 0,
        forall|i: int| 0 <= i < states.len() - 1 ==> cached_read_step(#[trigger] states[i], states[i + 1]),
    ensures
        forall|i: int| 1 <= i < states.len() ==> #[trigger] states[i].inner_reads() == 1,
{
    assert forall|i: int| 1 <= i < states.len() implies #[trigger] states[i].inner_reads() == 1 by {
        lemma_cache_reads_prefix(states, i);
    }
}

proof fn lemma_cache_reads_prefix<H: History>(states: Seq<CachedHistory<H>>, i: int)
    requires
        1 <= i < states.len(),
        states[0].snapshot() is None,
        states[0].inner_reads() == 0,
        forall|k: int| 0 <= k < states.len() - 1 ==> cached_read_step(#[trigger] states[k], states[k + 1]),
    ensures
        states[i].inner_reads() == 1,
        states[i].snapshot() is Some,
    decreases i,
{
    assert(cached_read_step(states[i - 1], states[i]));
    if i > 1 {
        lemma_cache_reads_prefix(states, i - 1);
    }
}

/// A store that wraps another and passes on only the last entries of what is written.
pub struct LimitedHistory<H: History> {
    history: H,
    limit: usize,
}

/// How many entries a limited store keeps when no limit is given.
pub const DEFAULT_LIMIT: usize = 25;

impl<H: History> LimitedHistory<H> {
    /// The wrapped store.
    pub closed spec fn inner(&self) -> H {
        self.history
    }

    /// How many of the last entries a write passes on.
    pub closed spec fn limit(&self) -> nat {
        self.limit as nat
    }

    pub fn new(history: H) -> (r: Self)
        ensures
            r.inner() == history,
            r.limit() == DEFAULT_LIMIT,
    {
        Self::with_limit(history, DEFAULT_LIMIT)
    }

    pub fn with_limit(history: H, limit: usize) -> (r: Self)
        ensures
            r.inner() == history,
            r.limit() == limit,
    {
        LimitedHistory { history, limit }
    }
}

impl<H: History> History for LimitedHistory<H> {
    type Err = H::Err;

    open spec fn stored(&self) -> Seq<Message> {
        self.inner().stored()
    }

    open spec fn kept(&self, messages: Seq<Message>) -> Seq<Message> {
        self.inner().kept(last_entries(messages, self.limit()))
    }

    fn read(&mut self) -> (r: Result<Vec<Message>, Self::Err>) {
        self.history.read()
    }

    fn write(&mut self, messages: &[Message]) -> (r: Result<(), Self::Err>)
        ensures
            final(self).limit() == old(self).limit(),
    {
        if messages.len() > self.limit {
            let start = messages.len() - self.limit;
            let tail = &messages[start..messages.len()];
            self.history.write(tail)
        } else {
            self.history.write(messages)
        }
    }
}

/// Writing `k` entries through a store limited to `l` hands the inner store
/// exactly the last `min(k, l)` of them, in their order.
pub proof fn lemma_limited_keeps_last(messages: Seq<Message>, limit: nat)
    ensures
        last_entries(messages, limit).len() == if messages.len() < limit {
            messages.len()
        } else {
            limit
        },
        forall|i: int|
            0 <= i < last_entries(messages, limit).len() ==> #[trigger] last_entries(messages, limit)[i]
                == messages[messages.len() - last_entries(messages, limit).len() + i],
{
}

/// A byte channel tied to one location, where a serialized transcript is kept.
pub trait Socket {
    type Err;

    /// The bytes kept at the location; `None` when nothing is there yet. A
    /// channel implemented outside verified code gets the default: one fixed
    /// value that the library knows nothing of.
    closed spec fn contents(&self) -> Option<Seq<u8>> {
        arbitrary()
    }

    /// Reads the bytes kept at the location; `None` when nothing is there yet.
    fn read(&mut self) -> (r: Result<Option<Vec<u8>>, Self::Err>)
        ensures
            r is Ok ==> match r->Ok_0 {
                Some(bytes) => old(self).contents() == Some(bytes@),
                None => old(self).contents() is None,
            },
            r is Ok ==> final(self).contents() == old(self).contents(),
    ;

    /// Replaces what is kept at the location by `bytes`.
    fn write(&mut self, bytes: &[u8]) -> (r: Result<(), Self::Err>)
        ensures
            r is Ok ==> final(self).contents() == Some(bytes@),
    ;
}

/// The serialized form of an empty transcript: an empty array.
pub open spec fn empty_transcript_bytes() -> Seq<u8> {
    seq![0x5bu8, 0x5du8]
}

/// The serialized transcript that a location stands for: what is kept there,
/// or an empty transcript when nothing is.
pub open spec fn transcript_bytes(contents: Option<Seq<u8>>) -> Seq<u8> {
    match contents {
        Some(bytes) => bytes,
        None => empty_transcript_bytes(),
    }
}

/// A durable store of the serialized transcript behind a byte channel.
pub struct SocketHistory<S: Socket>(S);

impl<S: Socket> SocketHistory<S> {
    /// The channel behind the store.
    pub closed spec fn channel(&self) -> S {
        self.0
    }

    pub fn new(socket: S) -> (r: Self)
        ensures
            r.channel() == socket,
    {
        SocketHistory(socket)
    }

    /// Reads the serialized transcript; a location with nothing kept there
    /// reads as an empty transcript, not as an error.
    pub fn load(&mut self) -> (r: Result<Vec<u8>, S::Err>)
        ensures
            r is Ok ==> r->Ok_0@ == transcript_bytes(old(self).channel().contents()),
            r is Ok ==> final(self).channel().contents() == old(self).channel().contents(),
    {
        match self.0.read() {
            Ok(Some(bytes)) => Ok(bytes),
            Ok(None) => {
                let empty: Vec<u8> = vec![0x5bu8, 0x5du8];
                assert(empty@ =~= empty_transcript_bytes());
                Ok(empty)
            },
            Err(e) => Err(e),
        }
    }

    /// Replaces the serialized transcript by `bytes`.
    pub fn store(&mut self, bytes: &[u8]) -> (r: Result<(), S::Err>)
        ensures
            r is Ok ==> final(self).channel().contents() == Some(bytes@),
            r is Ok ==> transcript_bytes(final(self).channel().contents()) == bytes@,
    {
        self.0.write(bytes)
    }
}

} // verus!
