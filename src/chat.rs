use crate::dto::{AssistantMessage, FunctionCall, Message};
use crate::funcs::{find_function, first_named, FunctionDeclaration};
use crate::history::{cached_read_step, last_entries, CachedHistory, History};
use vstd::prelude::*;

verus! {

/// How many entries of a finished turn are persisted when no limit is given.
pub const DEFAULT_HISTORY_LIMIT: usize = 15;

/// How many provider calls one turn may make, when no bound is given.
pub const DEFAULT_MAX_FUNCTION_CALLS: usize = 10;

/// Why sending a message failed.
#[derive(Debug)]
pub enum SendError<P, H> {
    /// The provider failed.
    Platform(P),
    /// The history could not be read.
    ReadHistory(H),
    /// The history could not be written.
    WriteHistory(H),
    /// The model kept calling functions past the bound of a turn.
    TooManyFunctionCalls,
}

/// What the driver of a turn does next.
#[derive(Clone, PartialEq, Eq, Debug)]
pub enum Step {
    /// Ask the provider for a reply to the current transcript.
    Request,
    /// Dispatch this function call and hand back its result.
    Call(FunctionCall),
    /// The turn is over with this answer.
    Finished(String),
    /// The turn failed: the model called functions too often.
    TooManyFunctionCalls,
}

/// The step that follows a provider reply, after `calls` earlier replies of at most `max`.
pub open spec fn reply_step(calls: nat, max: nat, reply: AssistantMessage) -> Step {
    if calls >= max {
        Step::TooManyFunctionCalls
    } else {
        match reply {
            AssistantMessage::Content(text) => Step::Finished(text),
            AssistantMessage::FunctionCall(fc) => Step::Call(fc),
        }
    }
}

/// The count of provider replies once one more has come in.
pub open spec fn calls_after_reply(calls: nat, max: nat) -> nat {
    if calls >= max {
        calls
    } else {
        calls + 1
    }
}

/// The step that follows a function result, after `calls` provider replies of at most `max`.
pub open spec fn result_step(calls: nat, max: nat) -> Step {
    if calls >= max {
        Step::TooManyFunctionCalls
    } else {
        Step::Request
    }
}

/// The transcript of a turn: what is sent to the provider, and the count of
/// provider replies so far.
pub struct Turn {
    messages: Vec<Message>,
    calls: usize,
    max_calls: usize,
    pending: Option<String>,
}

impl Turn {
    pub closed spec fn transcript(&self) -> Seq<Message> {
        self.messages@
    }

    pub closed spec fn calls(&self) -> nat {
        self.calls as nat
    }

    /// The bound on provider calls of this turn.
    pub closed spec fn max_calls(&self) -> nat {
        self.max_calls as nat
    }

    /// The name of the function call whose result the turn waits for, if any.
    pub closed spec fn pending(&self) -> Option<String> {
        self.pending
    }

    /// Whether the turn waits for the result of a function call.
    pub fn awaiting_result(&self) -> (r: bool)
        ensures
            r == self.pending() is Some,
    {
        self.pending.is_some()
    }

    /// The transcript so far: the list that the next request carries.
    pub fn messages(&self) -> (r: &Vec<Message>)
        ensures
            r@ == self.transcript(),
    {
        &self.messages
    }

    /// How many provider replies this turn has taken in.
    pub fn provider_calls(&self) -> (r: usize)
        ensures
            r == self.calls(),
    {
        self.calls
    }

    /// Takes in the provider's reply: records it and says what comes next. A
    /// function call leaves the turn waiting for its result.
    pub fn on_reply(&mut self, reply: AssistantMessage) -> (step: Step)
        requires
            old(self).pending() is None,
        ensures
            final(self).pending() == match step {
                Step::Call(fc) => Some(fc.name),
                _ => None::<String>,
            },
            step == reply_step(old(self).calls(), old(self).max_calls(), reply),
            final(self).calls() == calls_after_reply(old(self).calls(), old(self).max_calls()),
            final(self).max_calls() == old(self).max_calls(),
            final(self).transcript() == if old(self).calls() >= old(self).max_calls() {
                old(self).transcript()
            } else {
                old(self).transcript().push(Message::Assistant(reply))
            },
            one_system_first(old(self).transcript()) ==> one_system_first(final(self).transcript()),
    {
        if self.calls >= self.max_calls {
            return Step::TooManyFunctionCalls;
        }
        self.calls = self.calls + 1;
        match reply {
            AssistantMessage::Content(text) => {
                self.messages.push(Message::Assistant(AssistantMessage::Content(text.clone())));
                Step::Finished(text)
            },
            AssistantMessage::FunctionCall(fc) => {
                self.messages.push(Message::Assistant(AssistantMessage::FunctionCall(fc.duplicate())));
                self.pending = Some(fc.name.clone());
                Step::Call(fc)
            },
        }
    }

    /// Takes in the result of the pending function call: records it right
    /// after the call, under the call's name, and says what comes next.
    pub fn on_result(&mut self, payload: String) -> (step: Step)
        requires
            old(self).pending() is Some,
        ensures
            step == result_step(old(self).calls(), old(self).max_calls()),
            final(self).calls() == old(self).calls(),
            final(self).max_calls() == old(self).max_calls(),
            final(self).pending() is None,
            final(self).transcript() == old(self).transcript().push(
                Message::Function { name: old(self).pending()->Some_0, content: payload },
            ),
            one_system_first(old(self).transcript()) ==> one_system_first(final(self).transcript()),
    {
        let name = match self.pending.take() {
            Some(name) => name,
            None => String::new(),
        };
        self.messages.push(Message::Function { name, content: payload });
        if self.calls >= self.max_calls {
            Step::TooManyFunctionCalls
        } else {
            Step::Request
        }
    }
}

/// The provider calls made and the step reached when the provider answers a
/// turn with `replies` in order, each function call being answered by a result.
pub open spec fn run_calls(calls: nat, max: nat, replies: Seq<AssistantMessage>) -> (nat, Step)
    decreases replies.len(),
{
    if replies.len() == 0 {
        (calls, Step::Request)
    } else {
        let after = calls_after_reply(calls, max);
        match reply_step(calls, max, replies[0]) {
            Step::Call(_) => match result_step(after, max) {
                Step::Request => run_calls(after, max, replies.drop_first()),
                other => (after, other),
            },
            other => (after, other),
        }
    }
}

/// When the provider calls functions on its first `n - 1` replies and answers
/// with content on reply `n`, for `n` within the bound `max`, the turn ends with
/// that content after exactly `n` provider calls.
pub proof fn lemma_turn_finishes(replies: Seq<AssistantMessage>, max: nat, n: nat, text: String)
    requires
        1 <= n <= max,
        replies.len() >= n,
        forall|i: int| 0 <= i < n - 1 ==> #[trigger] replies[i] is FunctionCall,
        replies[n - 1] == AssistantMessage::Content(text),
    ensures
        run_calls(0, max, replies) == (n, Step::Finished(text)),
{
    lemma_turn_finishes_from(0, max, replies, n, text);
}

proof fn lemma_turn_finishes_from(
    calls: nat,
    max: nat,
    replies: Seq<AssistantMessage>,
    n: nat,
    text: String,
)
    requires
        1 <= n,
        calls + n <= max,
        replies.len() >= n,
        forall|i: int| 0 <= i < n - 1 ==> #[trigger] replies[i] is FunctionCall,
        replies[n - 1] == AssistantMessage::Content(text),
    ensures
        run_calls(calls, max, replies) == (calls + n, Step::Finished(text)),
    decreases n,
{
    if n > 1 {
        assert(replies[0] is FunctionCall);
        let rest = replies.drop_first();
        assert forall|i: int| 0 <= i < n - 2 implies #[trigger] rest[i] is FunctionCall by {
            assert(rest[i] == replies[i + 1]);
        }
        lemma_turn_finishes_from(calls + 1, max, rest, (n - 1) as nat, text);
    }
}

/// When the provider answers every request with a function call, the turn
/// fails with too many function calls after exactly `max` provider calls.
pub proof fn lemma_turn_gives_up(replies: Seq<AssistantMessage>, max: nat)
    requires
        1 <= max,
        replies.len() >= max,
        forall|i: int| 0 <= i < replies.len() ==> #[trigger] replies[i] is FunctionCall,
    ensures
        run_calls(0, max, replies) == (max, Step::TooManyFunctionCalls),
{
    lemma_turn_gives_up_from(0, max, replies);
}

proof fn lemma_turn_gives_up_from(calls: nat, max: nat, replies: Seq<AssistantMessage>)
    requires
        calls < max,
        replies.len() >= max - calls,
        forall|i: int| 0 <= i < replies.len() ==> #[trigger] replies[i] is FunctionCall,
    ensures
        run_calls(calls, max, replies) == (max, Step::TooManyFunctionCalls),
    decreases max - calls,
{
    assert(replies[0] is FunctionCall);
    if calls + 1 < max {
        let rest = replies.drop_first();
        assert forall|i: int| 0 <= i < rest.len() implies #[trigger] rest[i] is FunctionCall by {
            assert(rest[i] == replies[i + 1]);
        }
        lemma_turn_gives_up_from(calls + 1, max, rest);
    }
}

/// The list sent on the first request of a turn: the system message, if any,
/// then the stored transcript, then the user's message.
pub open spec fn request_list(system: Option<String>, history: Seq<Message>, user: String) -> Seq<
    Message,
> {
    let head = match system {
        Some(text) => seq![Message::System(text)],
        None => Seq::empty(),
    };
    head + history + seq![Message::User(user)]
}

/// A transcript with its system entries taken out, the others in their order.
pub open spec fn without_system(messages: Seq<Message>) -> Seq<Message>
    decreases messages.len(),
{
    if messages.len() == 0 {
        messages
    } else {
        let rest = without_system(messages.drop_last());
        if messages.last() is System {
            rest
        } else {
            rest.push(messages.last())
        }
    }
}

/// What a finished turn leaves in the history: its entries but the system ones,
/// of which the last `limit`.
pub open spec fn persisted(messages: Seq<Message>, limit: nat) -> Seq<Message> {
    last_entries(without_system(messages), limit)
}

/// Whether no entry of a transcript is a system message.
pub open spec fn system_free(messages: Seq<Message>) -> bool {
    forall|i: int| 0 <= i < messages.len() ==> !(#[trigger] messages[i] is System)
}

/// Whether a transcript has at most one system entry, and that one first.
pub open spec fn one_system_first(messages: Seq<Message>) -> bool {
    forall|i: int| 0 < i < messages.len() ==> !(#[trigger] messages[i] is System)
}

/// The entries of a transcript but its system messages, in their order.
pub fn drop_system(messages: &Vec<Message>) -> (r: Vec<Message>)
    ensures
        r@ == without_system(messages@),
{
    let mut r: Vec<Message> = Vec::new();
    let mut i: usize = 0;
    while i < messages.len()
        invariant
            i <= messages@.len(),
            r@ == without_system(messages@.subrange(0, i as int)),
        decreases messages@.len() - i,
    {
        let ghost before = messages@.subrange(0, i as int);
        assert(messages@.subrange(0, i + 1).drop_last() =~= before);
        if !messages[i].is_system() {
            r.push(messages[i].duplicate());
        }
        i = i + 1;
    }
    assert(messages@.subrange(0, messages@.len() as int) =~= messages@);
    r
}

/// The last `limit` entries of a transcript, in their order.
pub fn keep_last(messages: Vec<Message>, limit: usize) -> (r: Vec<Message>)
    ensures
        r@ == last_entries(messages@, limit as nat),
{
    if messages.len() > limit {
        let start = messages.len() - limit;
        let mut r: Vec<Message> = Vec::new();
        let mut i: usize = start;
        while i < messages.len()
            invariant
                start <= i <= messages@.len(),
                r@ == messages@.subrange(start as int, i as int),
            decreases messages@.len() - i,
        {
            r.push(messages[i].duplicate());
            i = i + 1;
            assert(r@ =~= messages@.subrange(start as int, i as int));
        }
        r
    } else {
        messages
    }
}

/// The system message is never persisted: what a finished turn leaves in the
/// history holds no system entry, whatever the turn held.
pub proof fn lemma_persisted_system_free(messages: Seq<Message>, limit: nat)
    ensures
        system_free(persisted(messages, limit)),
{
    lemma_without_system_free(messages);
}

proof fn lemma_without_system_free(messages: Seq<Message>)
    ensures
        system_free(without_system(messages)),
    decreases messages.len(),
{
    if messages.len() > 0 {
        lemma_without_system_free(messages.drop_last());
    }
}

/// Every request of a turn over a history without system entries holds at
/// most one system entry, the first: the turn adds only replies and results
/// after the opening list.
pub proof fn lemma_requests_hold_one_system(
    system: Option<String>,
    history: Seq<Message>,
    user: String,
    added: Seq<Message>,
)
    requires
        system_free(history),
        system_free(added),
    ensures
        one_system_first(request_list(system, history, user) + added),
{
    let list = request_list(system, history, user) + added;
    let head_len: int = if system is Some { 1 } else { 0 };
    assert forall|i: int| 0 < i < list.len() implies !(#[trigger] list[i] is System) by {
        if i < head_len + history.len() {
            assert(list[i] == history[i - head_len]);
        } else if i == head_len + history.len() {
            assert(list[i] == Message::User(user));
        } else {
            assert(list[i] == added[i - head_len - history.len() - 1]);
        }
    }
}

/// The conversation engine's own state: the system message, the declarations of
/// the registered functions, the history behind a cache, and how much of it to keep.
pub struct Chat<H: History> {
    system_message: Option<String>,
    functions: Vec<FunctionDeclaration>,
    history: CachedHistory<H>,
    history_limit: usize,
    max_function_calls: usize,
}

impl<H: History> Chat<H> {
    pub closed spec fn system(&self) -> Option<String> {
        self.system_message
    }

    pub closed spec fn declarations(&self) -> Seq<FunctionDeclaration> {
        self.functions@
    }

    pub closed spec fn store(&self) -> CachedHistory<H> {
        self.history
    }

    pub closed spec fn limit(&self) -> nat {
        self.history_limit as nat
    }

    pub closed spec fn max_calls(&self) -> nat {
        self.max_function_calls as nat
    }

    /// An engine over `history`, with no system message, no functions and the default limit.
    pub fn new(history: H) -> (r: Self)
        ensures
            r.system() is None,
            r.declarations().len() == 0,
            r.store().inner() == history,
            r.store().snapshot() is None,
            r.limit() == DEFAULT_HISTORY_LIMIT,
            r.max_calls() == DEFAULT_MAX_FUNCTION_CALLS,
    {
        Chat {
            system_message: None,
            functions: Vec::new(),
            history: CachedHistory::new(history),
            history_limit: DEFAULT_HISTORY_LIMIT,
            max_function_calls: DEFAULT_MAX_FUNCTION_CALLS,
        }
    }

    /// Sets the system message that opens every request.
    pub fn system_message(&mut self, system_message: Option<String>)
        ensures
            final(self).system() == system_message,
            final(self).declarations() == old(self).declarations(),
            final(self).store() == old(self).store(),
            final(self).limit() == old(self).limit(),
            final(self).max_calls() == old(self).max_calls(),
    {
        self.system_message = system_message;
    }

    /// Registers a function: its declaration goes after those already there.
    pub fn function(&mut self, declaration: FunctionDeclaration)
        ensures
            final(self).declarations() == old(self).declarations().push(declaration),
            final(self).system() == old(self).system(),
            final(self).store() == old(self).store(),
            final(self).limit() == old(self).limit(),
            final(self).max_calls() == old(self).max_calls(),
    {
        self.functions.push(declaration);
    }

    /// Sets how many entries of a finished turn are persisted.
    pub fn history_limit(&mut self, limit: usize)
        ensures
            final(self).limit() == limit,
            final(self).system() == old(self).system(),
            final(self).declarations() == old(self).declarations(),
            final(self).store() == old(self).store(),
            final(self).max_calls() == old(self).max_calls(),
    {
        self.history_limit = limit;
    }

    /// Sets how many provider calls one turn may make.
    pub fn max_function_calls(&mut self, max: usize)
        ensures
            final(self).max_calls() == max,
            final(self).limit() == old(self).limit(),
            final(self).system() == old(self).system(),
            final(self).declarations() == old(self).declarations(),
            final(self).store() == old(self).store(),
    {
        self.max_function_calls = max;
    }

    /// The declarations of the registered functions, in the order of registration.
    pub fn declarations_list(&self) -> (r: &Vec<FunctionDeclaration>)
        ensures
            r@ == self.declarations(),
    {
        &self.functions
    }

    /// The index of the registered function that a call names.
    pub fn function_index(&self, name: &String) -> (r: Option<usize>)
        ensures
            match r {
                Some(i) => first_named(self.declarations(), name@) == Some(i as nat),
                None => first_named(self.declarations(), name@) is None,
            },
    {
        find_function(&self.functions, name)
    }

    /// Opens a turn for the user's message: reads the history through the cache
    /// and builds the first request list.
    pub fn begin(&mut self, user_message: String) -> (r: Result<Turn, H::Err>)
        ensures
            r is Ok ==> r->Ok_0.transcript() == request_list(
                old(self).system(),
                old(self).store().stored(),
                user_message,
            ),
            r is Ok ==> r->Ok_0.calls() == 0,
            r is Ok ==> r->Ok_0.pending() is None,
            old(self).store().snapshot() is Some ==> r is Ok && final(self).store() == old(self).store(),
            r is Ok ==> cached_read_step(old(self).store(), final(self).store()),
            r is Err ==> final(self).store().snapshot() is None,
            r is Ok ==> r->Ok_0.max_calls() == old(self).max_calls(),
            r is Ok && system_free(old(self).store().stored()) ==> one_system_first(
                r->Ok_0.transcript(),
            ),
            r is Ok ==> final(self).store().stored() == old(self).store().stored(),
            final(self).system() == old(self).system(),
            final(self).declarations() == old(self).declarations(),
            final(self).limit() == old(self).limit(),
            final(self).max_calls() == old(self).max_calls(),
    {
        let history = match self.history.read() {
            Ok(history) => history,
            Err(e) => {
                return Err(e);
            },
        };
        let mut messages: Vec<Message> = Vec::new();
        match &self.system_message {
            Some(text) => messages.push(Message::System(text.clone())),
            None => {},
        }
        let ghost head = messages@;
        let mut i: usize = 0;
        while i < history.len()
            invariant
                i <= history@.len(),
                messages@ == head + history@.subrange(0, i as int),
            decreases history@.len() - i,
        {
            messages.push(history[i].duplicate());
            i = i + 1;
            assert(messages@ =~= head + history@.subrange(0, i as int));
        }
        messages.push(Message::User(user_message));
        assert(messages@ =~= request_list(self.system_message, history@, user_message));
        proof {
            if system_free(history@) {
                lemma_requests_hold_one_system(self.system_message, history@, user_message, seq![]);
                assert(request_list(self.system_message, history@, user_message) + seq![]
                    =~= messages@);
            }
        }
        Ok(Turn { messages, calls: 0, max_calls: self.max_function_calls, pending: None })
    }

    /// Closes a finished turn: drops its system entries, keeps the last of the
    /// others up to the limit, and writes them through the cache.
    pub fn finish(&mut self, turn: Turn) -> (r: Result<(), H::Err>)
        ensures
            r is Ok ==> final(self).store().stored() == persisted(turn.transcript(), old(self).limit()),
            r is Ok ==> final(self).store().snapshot() == Some(
                persisted(turn.transcript(), old(self).limit()),
            ),
            r is Ok ==> final(self).store().inner().stored() == old(self).store().inner().kept(
                persisted(turn.transcript(), old(self).limit()),
            ),
            r is Err ==> final(self).store().snapshot() == old(self).store().snapshot(),
            final(self).store().inner_reads() == old(self).store().inner_reads(),
            final(self).system() == old(self).system(),
            final(self).declarations() == old(self).declarations(),
            final(self).limit() == old(self).limit(),
            final(self).max_calls() == old(self).max_calls(),
    {
        let kept = keep_last(drop_system(&turn.messages), self.history_limit);
        self.history.write(kept.as_slice())
    }
}

} // verus!
