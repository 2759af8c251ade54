//! Chat messages, the token budget and the conversation context that keeps
//! a conversation inside its budget.
use vstd::prelude::*;
use vstd::utf8::encode_utf8;

pub mod vllm;

verus! {

/// What `str::len` reports for text with these characters: its UTF-8 byte count.
pub open spec fn byte_count(s: Seq<char>) -> usize {
    encode_utf8(s).len() as usize
}

/// Rough token estimate of a text: its byte count (as a `u32`) divided by four.
pub open spec fn estimate_tokens(content: Seq<char>) -> u32 {
    ((byte_count(content) as int % 0x1_0000_0000) / 4) as u32
}

/// One chat message: a role (`system`, `user` or `assistant`) and its text.
#[derive(Debug)]
pub struct Message {
    pub role: String,
    pub content: String,
}

impl Clone for Message {
    fn clone(&self) -> (r: Self)
        ensures
            r == *self,
    {
        Message { role: self.role.clone(), content: self.content.clone() }
    }
}

impl Message {
    pub open spec fn tokens(self) -> u32 {
        estimate_tokens(self.content@)
    }

    pub fn system(content: &str) -> (m: Message)
        ensures
            m.role@ == "system"@,
            m.content@ == content@,
    {
        Message { role: String::from_str("system"), content: String::from_str(content) }
    }

    pub fn user(content: &str) -> (m: Message)
        ensures
            m.role@ == "user"@,
            m.content@ == content@,
    {
        Message { role: String::from_str("user"), content: String::from_str(content) }
    }

    pub fn assistant(content: &str) -> (m: Message)
        ensures
            m.role@ == "assistant"@,
            m.content@ == content@,
    {
        Message { role: String::from_str("assistant"), content: String::from_str(content) }
    }

    /// About one token per four bytes of content.
    pub fn estimated_tokens(&self) -> (t: u32)
        ensures
            t == self.tokens(),
    {
        let n: usize = self.content.as_str().len();
        let low: u64 = n as u64 % 0x1_0000_0000u64;
        (low as u32) / 4
    }
}

/// Total estimated tokens of a sequence of messages.
pub open spec fn sum_tokens(ms: Seq<Message>) -> int
    decreases ms.len(),
{
    if ms.len() == 0 {
        0
    } else {
        ms[0].tokens() + sum_tokens(ms.drop_first())
    }
}

pub proof fn lemma_sum_tokens_append(a: Seq<Message>, b: Seq<Message>)
    ensures
        sum_tokens(a + b) == sum_tokens(a) + sum_tokens(b),
    decreases a.len(),
{
    if a.len() > 0 {
        assert((a + b).drop_first() =~= a.drop_first() + b);
        lemma_sum_tokens_append(a.drop_first(), b);
    } else {
        assert(a + b =~= b);
    }
}

pub proof fn lemma_sum_tokens_push(a: Seq<Message>, m: Message)
    ensures
        sum_tokens(a.push(m)) == sum_tokens(a) + m.tokens(),
{
    lemma_sum_tokens_append(a, seq![m]);
    assert(a + seq![m] =~= a.push(m));
    assert(seq![m].drop_first() =~= Seq::<Message>::empty());
    assert(sum_tokens(Seq::<Message>::empty()) == 0);
    assert(sum_tokens(seq![m]) == m.tokens() + sum_tokens(seq![m].drop_first()));
}

/// Usage reported by the server for one completion.
#[derive(Debug, Clone, Copy)]
pub struct Usage {
    pub prompt_tokens: u32,
    pub completion_tokens: u32,
    pub total_tokens: u32,
}

/// One answer of a chat completion.
#[derive(Debug)]
pub struct Choice {
    pub index: u32,
    pub message: Message,
    pub finish_reason: Option<String>,
}

/// A chat completion as the server returns it.
#[derive(Debug)]
pub struct ChatResponse {
    pub id: String,
    pub choices: Vec<Choice>,
    pub usage: Option<Usage>,
}

impl ChatResponse {
    /// The content of the first choice, or the empty text when there is none.
    pub open spec fn first_content(self) -> Seq<char> {
        if self.choices@.len() > 0 {
            self.choices@[0].message.content@
        } else {
            Seq::empty()
        }
    }

    /// The content of the first choice, or an empty string when there is none.
    pub fn first_choice_content(&self) -> (s: String)
        ensures
            s@ == self.first_content(),
    {
        if self.choices.len() > 0 {
            self.choices[0].message.content.clone()
        } else {
            String::new()
        }
    }
}

/// Token budget tracker for the context window.
#[derive(Debug, Clone, Copy)]
pub struct TokenBudget {
    pub max_tokens: u32,
    pub used_tokens: u32,
}

impl TokenBudget {
    pub open spec fn spec_remaining(self) -> u32 {
        if self.used_tokens <= self.max_tokens {
            (self.max_tokens - self.used_tokens) as u32
        } else {
            0
        }
    }

    pub fn new(max_tokens: u32) -> (b: TokenBudget)
        ensures
            b.max_tokens == max_tokens,
            b.used_tokens == 0,
    {
        TokenBudget { max_tokens, used_tokens: 0 }
    }

    /// Tokens left: `max_tokens - used_tokens`, or 0 once the budget is spent.
    pub fn remaining(&self) -> (r: u32)
        ensures
            r == self.spec_remaining(),
    {
        self.max_tokens.saturating_sub(self.used_tokens)
    }

    pub fn can_fit(&self, tokens: u32) -> (b: bool)
        ensures
            b == (tokens <= self.spec_remaining()),
    {
        tokens <= self.remaining()
    }

    /// Adds `tokens` to the used count, stopping at `u32::MAX`.
    pub fn consume(&mut self, tokens: u32)
        ensures
            final(self).max_tokens == old(self).max_tokens,
            final(self).used_tokens == (if old(self).used_tokens + tokens > u32::MAX {
                u32::MAX as int
            } else {
                old(self).used_tokens + tokens
            }),
    {
        self.used_tokens = self.used_tokens.saturating_add(tokens);
    }

    pub fn reset(&mut self)
        ensures
            final(self).max_tokens == old(self).max_tokens,
            final(self).used_tokens == 0,
    {
        self.used_tokens = 0;
    }
}

/// Number of messages, counted from the newest, that trimming keeps: it goes
/// back from the newest message while the running total stays within `max`.
pub open spec fn kept_from(ms: Seq<Message>, max: int, total: int, k: nat) -> nat
    decreases ms.len() - k,
{
    if k < ms.len() && total + ms[ms.len() - 1 - k].tokens() <= max {
        kept_from(ms, max, total + ms[ms.len() - 1 - k].tokens(), k + 1)
    } else {
        k
    }
}

/// The newest messages that fit, with `sys` tokens already taken, in `max`:
/// the last `kept_from(ms, max, sys, 0)` of them, in order.
pub open spec fn newest_fitting(ms: Seq<Message>, max: int, sys: int) -> Seq<Message> {
    ms.subrange(ms.len() - kept_from(ms, max, sys, 0), ms.len() as int)
}

/// The token estimates of a sequence of messages.
pub open spec fn token_seq(ms: Seq<Message>) -> Seq<u32> {
    ms.map_values(|m: Message| m.tokens())
}

/// Trimming never adds up past `u32::MAX` (where its `u32` running total would
/// overflow), walking these token counts from the newest.
pub open spec fn trim_fits(ts: Seq<u32>, max: int, total: int, k: nat) -> bool
    decreases ts.len() - k,
{
    if k < ts.len() {
        let t = total + ts[ts.len() - 1 - k];
        t <= u32::MAX && (t <= max ==> trim_fits(ts, max, t, k + 1))
    } else {
        true
    }
}

pub proof fn lemma_kept_bounds(ms: Seq<Message>, max: int, total: int, k: nat)
    requires
        k <= ms.len(),
    ensures
        k <= kept_from(ms, max, total, k) <= ms.len(),
    decreases ms.len() - k,
{
    if k < ms.len() && total + ms[ms.len() - 1 - k].tokens() <= max {
        lemma_kept_bounds(ms, max, total + ms[ms.len() - 1 - k].tokens(), k + 1);
    }
}

/// Trimming is idempotent: of the messages one trim keeps, a second trim
/// with the same budget and system prompt keeps them all.
pub proof fn law_trim_idempotent(ms: Seq<Message>, max: int, sys: int)
    ensures
        ({
            let t = ms.subrange(ms.len() - kept_from(ms, max, sys, 0), ms.len() as int);
            kept_from(t, max, sys, 0) == t.len()
        }),
{
    lemma_kept_bounds(ms, max, sys, 0);
    let k = kept_from(ms, max, sys, 0);
    let t = ms.subrange(ms.len() - k, ms.len() as int);
    lemma_kept_same_walk(ms, t, max, sys, 0);
}

proof fn lemma_sum_tokens_nonneg(ms: Seq<Message>)
    ensures
        sum_tokens(ms) >= 0,
    decreases ms.len(),
{
    if ms.len() > 0 {
        lemma_sum_tokens_nonneg(ms.drop_first());
    }
}

/// The messages trimming keeps fit in `max` together with the `sys` tokens
/// already taken, when the walk starts within `max`.
proof fn lemma_kept_sum(ms: Seq<Message>, max: int, sys: int, total: int, k: nat)
    requires
        k <= ms.len(),
        total == sys + sum_tokens(ms.subrange(ms.len() - k, ms.len() as int)),
        total <= max,
    ensures
        sys + sum_tokens(ms.subrange(ms.len() - kept_from(ms, max, total, k), ms.len() as int)) <= max,
    decreases ms.len() - k,
{
    lemma_kept_bounds(ms, max, total, k);
    let n = ms.len() as int;
    if k < n && total + ms[n - 1 - k].tokens() <= max {
        let a = ms.subrange(n - k - 1, n);
        assert(a.drop_first() =~= ms.subrange(n - k, n));
        assert(a[0] == ms[n - 1 - k]);
        lemma_kept_sum(ms, max, sys, total + ms[n - 1 - k].tokens(), k + 1);
    }
}

/// Messages whose tokens, with `total` already taken, all fit in `max` (at
/// most `u32::MAX`) are walked without overflow and all kept.
proof fn lemma_all_fit(ms: Seq<Message>, max: int, total: int, k: nat)
    requires
        k <= ms.len(),
        max <= u32::MAX,
        0 <= total,
        total + sum_tokens(ms.subrange(0, ms.len() - k)) <= max,
    ensures
        trim_fits(token_seq(ms), max, total, k),
        kept_from(ms, max, total, k) == ms.len(),
    decreases ms.len() - k,
{
    let n = ms.len() as int;
    if k < n {
        let i = n - 1 - k;
        let pre = ms.subrange(0, n - k);
        assert(pre =~= ms.subrange(0, i).push(ms[i]));
        lemma_sum_tokens_push(ms.subrange(0, i), ms[i]);
        lemma_sum_tokens_nonneg(ms.subrange(0, i));
        assert(token_seq(ms)[i] == ms[i].tokens());
        assert(ms.subrange(0, n - (k + 1)) =~= ms.subrange(0, i));
        lemma_all_fit(ms, max, total + ms[i].tokens(), k + 1);
    }
}

/// Trimming a second time changes nothing, when the system prompt alone fits
/// the budget: what the first trim keeps fits within `max_tokens` together
/// with the system prompt, is walked again without overflow, and is kept whole.
pub proof fn law_trim_twice_changes_nothing(ms: Seq<Message>, max: u32, sys: u32)
    requires
        sys <= max,
    ensures
        ({
            let t = newest_fitting(ms, max as int, sys as int);
            &&& sys + sum_tokens(t) <= max
            &&& trim_fits(token_seq(t), max as int, sys as int, 0)
            &&& newest_fitting(t, max as int, sys as int) == t
        }),
{
    let n = ms.len() as int;
    assert(ms.subrange(n, n) =~= Seq::<Message>::empty());
    lemma_kept_sum(ms, max as int, sys as int, sys as int, 0);
    let t = newest_fitting(ms, max as int, sys as int);
    assert(t.subrange(0, t.len() as int) =~= t);
    lemma_all_fit(t, max as int, sys as int, 0);
    assert(t.subrange(0, t.len() as int) =~= t);
}

proof fn lemma_kept_same_walk(ms: Seq<Message>, t: Seq<Message>, max: int, total: int, j: nat)
    requires
        j <= kept_from(ms, max, total, j),
        kept_from(ms, max, total, j) <= ms.len(),
        t == ms.subrange(ms.len() - kept_from(ms, max, total, j), ms.len() as int),
    ensures
        kept_from(t, max, total, j) == t.len(),
    decreases ms.len() - j,
{
    let k = kept_from(ms, max, total, j);
    if j < k {
        let nt = total + ms[ms.len() - 1 - j].tokens();
        assert(t[t.len() - 1 - j] == ms[ms.len() - 1 - j]);
        lemma_kept_bounds(ms, max, nt, j + 1);
        lemma_kept_same_walk(ms, t, max, nt, j + 1);
    }
}

/// Conversation history with an optional system prompt and a token budget.
#[derive(Debug)]
pub struct ConversationContext {
    pub messages: Vec<Message>,
    pub system_prompt: Option<String>,
    pub budget: TokenBudget,
}

pub fn clone_messages(ms: &Vec<Message>) -> (r: Vec<Message>)
    ensures
        r@ == ms@,
{
    let mut r: Vec<Message> = Vec::new();
    let mut k: usize = 0;
    while k < ms.len()
        invariant
            k <= ms@.len(),
            r@ == ms@.take(k as int),
        decreases ms@.len() - k,
    {
        r.push(ms[k].clone());
        k = k + 1;
        assert(r@ =~= ms@.take(k as int));
    }
    assert(ms@.take(k as int) =~= ms@);
    r
}

impl Clone for ConversationContext {
    fn clone(&self) -> (r: Self)
        ensures
            r.messages@ == self.messages@,
            r.system_prompt == self.system_prompt,
            r.budget == self.budget,
    {
        let system_prompt = match &self.system_prompt {
            Some(p) => Some(p.clone()),
            None => None,
        };
        ConversationContext { messages: clone_messages(&self.messages), system_prompt, budget: self.budget }
    }
}

impl ConversationContext {
    /// Tokens the system prompt takes.
    pub open spec fn system_tokens(self) -> u32 {
        match self.system_prompt {
            Some(p) => estimate_tokens(p@),
            None => 0,
        }
    }

    /// The used count is exactly the system prompt plus every message.
    pub open spec fn accounted(self) -> bool {
        self.budget.used_tokens == self.system_tokens() + sum_tokens(self.messages@)
    }

    /// How many of the newest messages trimming keeps.
    pub open spec fn kept(self) -> nat {
        kept_from(self.messages@, self.budget.max_tokens as int, self.system_tokens() as int, 0)
    }

    /// The messages left after trimming: the newest `kept()` ones, in order.
    pub open spec fn trimmed_messages(self) -> Seq<Message> {
        newest_fitting(self.messages@, self.budget.max_tokens as int, self.system_tokens() as int)
    }

    /// `v` is what `get_messages` gives: the system prompt as a `system`
    /// message, when one is set, followed by the history.
    pub open spec fn is_request(self, v: Seq<Message>) -> bool {
        match self.system_prompt {
            Some(p) => {
                &&& v.len() == self.messages@.len() + 1
                &&& v[0].role@ == "system"@
                &&& v[0].content@ == p@
                &&& v.drop_first() == self.messages@
            },
            None => v == self.messages@,
        }
    }

    /// `after` is this context with `content` offered as a message of `role`:
    /// appended, and its tokens charged, when they fit what is left of the
    /// budget; otherwise nothing changed.
    pub open spec fn offered(self, after: ConversationContext, role: Seq<char>, content: Seq<char>) -> bool {
        if estimate_tokens(content) <= self.budget.spec_remaining() {
            &&& after.messages@.len() == self.messages@.len() + 1
            &&& after.messages@.drop_last() == self.messages@
            &&& after.messages@.last().role@ == role
            &&& after.messages@.last().content@ == content
            &&& after.budget.used_tokens == self.budget.used_tokens + estimate_tokens(content)
            &&& after.budget.max_tokens == self.budget.max_tokens
            &&& after.system_prompt == self.system_prompt
        } else {
            after == self
        }
    }

    pub fn new(max_tokens: u32) -> (c: ConversationContext)
        ensures
            c.messages@.len() == 0,
            c.system_prompt is None,
            c.budget.max_tokens == max_tokens,
            c.budget.used_tokens == 0,
            c.accounted(),
    {
        ConversationContext {
            messages: Vec::new(),
            system_prompt: None,
            budget: TokenBudget::new(max_tokens),
        }
    }

    /// Sets the system prompt and charges its tokens to the budget.
    pub fn with_system_prompt(self, prompt: &str) -> (c: ConversationContext)
        ensures
            c.system_prompt matches Some(p) && p@ == prompt@,
            c.messages == self.messages,
            c.budget.max_tokens == self.budget.max_tokens,
            c.budget.used_tokens == (if self.budget.used_tokens + estimate_tokens(prompt@)
                > u32::MAX {
                u32::MAX as int
            } else {
                self.budget.used_tokens + estimate_tokens(prompt@)
            }),
    {
        let mut c = self;
        let t = Message::system(prompt).estimated_tokens();
        c.budget.consume(t);
        c.system_prompt = Some(String::from_str(prompt));
        c
    }

    /// Appends the message when its tokens fit in what is left of the budget;
    /// otherwise leaves the context unchanged. Returns whether it was added.
    pub fn add_message(&mut self, message: Message) -> (added: bool)
        ensures
            added == (message.tokens() <= old(self).budget.spec_remaining()),
            added ==> final(self).messages@ == old(self).messages@.push(message),
            added ==> final(self).budget.used_tokens == old(self).budget.used_tokens
                + message.tokens(),
            !added ==> final(self).messages@ == old(self).messages@,
            !added ==> final(self).budget == old(self).budget,
            !added ==> *final(self) == *old(self),
            final(self).system_prompt == old(self).system_prompt,
            final(self).budget.max_tokens == old(self).budget.max_tokens,
            old(self).accounted() ==> final(self).accounted(),
            old(self).budget.used_tokens <= old(self).budget.max_tokens
                ==> final(self).budget.used_tokens <= final(self).budget.max_tokens,
    {
        let tokens = message.estimated_tokens();
        if self.budget.can_fit(tokens) {
            proof {
                lemma_sum_tokens_push(self.messages@, message);
            }
            self.budget.consume(tokens);
            self.messages.push(message);
            true
        } else {
            false
        }
    }

    pub fn add_user_message(&mut self, content: &str) -> (added: bool)
        ensures
            added == (estimate_tokens(content@) <= old(self).budget.spec_remaining()),
            added ==> final(self).messages@.len() == old(self).messages@.len() + 1,
            old(self).offered(*final(self), "user"@, content@),
            added ==> final(self).messages@.last().role@ == "user"@,
            added ==> final(self).messages@.last().content@ == content@,
            added ==> final(self).messages@.drop_last() == old(self).messages@,
            added ==> final(self).budget.used_tokens == old(self).budget.used_tokens
                + estimate_tokens(content@),
            !added ==> final(self).messages@ == old(self).messages@,
            !added ==> final(self).budget == old(self).budget,
            final(self).system_prompt == old(self).system_prompt,
            final(self).budget.max_tokens == old(self).budget.max_tokens,
            old(self).accounted() ==> final(self).accounted(),
    {
        let m = Message::user(content);
        let r = self.add_message(m);
        proof {
            if r {
                assert(self.messages@.drop_last() =~= old(self).messages@);
            }
        }
        r
    }

    pub fn add_assistant_message(&mut self, content: &str) -> (added: bool)
        ensures
            added == (estimate_tokens(content@) <= old(self).budget.spec_remaining()),
            added ==> final(self).messages@.len() == old(self).messages@.len() + 1,
            old(self).offered(*final(self), "assistant"@, content@),
            added ==> final(self).messages@.last().role@ == "assistant"@,
            added ==> final(self).messages@.last().content@ == content@,
            added ==> final(self).messages@.drop_last() == old(self).messages@,
            added ==> final(self).budget.used_tokens == old(self).budget.used_tokens
                + estimate_tokens(content@),
            !added ==> final(self).messages@ == old(self).messages@,
            !added ==> final(self).budget == old(self).budget,
            final(self).system_prompt == old(self).system_prompt,
            final(self).budget.max_tokens == old(self).budget.max_tokens,
            old(self).accounted() ==> final(self).accounted(),
    {
        let m = Message::assistant(content);
        let r = self.add_message(m);
        proof {
            if r {
                assert(self.messages@.drop_last() =~= old(self).messages@);
            }
        }
        r
    }

    /// The system prompt (as a `system` message, when set) followed by the history.
    pub fn get_messages(&self) -> (r: Vec<Message>)
        ensures
            r@.len() == self.messages@.len() + (if self.system_prompt is Some {
                1int
            } else {
                0
            }),
            self.system_prompt matches Some(p) ==> r@[0].role@ == "system"@ && r@[0].content@
                == p@ && r@.drop_first() == self.messages@,
            self.system_prompt is None ==> r@ == self.messages@,
            self.is_request(r@),
    {
        let mut r: Vec<Message> = Vec::new();
        match &self.system_prompt {
            Some(system) => {
                r.push(Message::system(system.as_str()));
            },
            None => {},
        }
        let rest = clone_messages(&self.messages);
        let ghost first = r@;
        let mut k: usize = 0;
        while k < rest.len()
            invariant
                k <= rest@.len(),
                rest@ == self.messages@,
                r@ == first + rest@.take(k as int),
            decreases rest@.len() - k,
        {
            r.push(rest[k].clone());
            k = k + 1;
            assert(r@ =~= first + rest@.take(k as int));
        }
        assert(rest@.take(k as int) =~= rest@);
        proof {
            if self.system_prompt is Some {
                assert(r@.drop_first() =~= self.messages@);
            } else {
                assert(r@ =~= self.messages@);
            }
        }
        r
    }

    /// Keeps the newest messages that fit, together with the system prompt, in
    /// `max_tokens`, drops the older ones, and sets the used count to what is kept.
    pub fn trim_to_budget(&mut self)
        requires
            trim_fits(
                token_seq(old(self).messages@),
                old(self).budget.max_tokens as int,
                old(self).system_tokens() as int,
                0,
            ),
        ensures
            final(self).messages@ == old(self).trimmed_messages(),
            final(self).budget.used_tokens == old(self).system_tokens() + sum_tokens(
                old(self).trimmed_messages(),
            ),
            final(self).budget.max_tokens == old(self).budget.max_tokens,
            final(self).system_prompt == old(self).system_prompt,
            final(self).accounted(),
            old(self).system_tokens() <= old(self).budget.max_tokens
                ==> final(self).budget.used_tokens <= final(self).budget.max_tokens,
            old(self).system_tokens() <= old(self).budget.max_tokens ==> trim_fits(
                token_seq(final(self).messages@),
                final(self).budget.max_tokens as int,
                final(self).system_tokens() as int,
                0,
            ) && final(self).trimmed_messages() == final(self).messages@,
            old(self).kept() < old(self).messages@.len() ==> final(self).budget.used_tokens
                + old(self).messages@[old(self).messages@.len() - 1 - old(
                self,
            ).kept()].tokens() > old(self).budget.max_tokens,
    {
        let mut total: u32 = 0;
        match &self.system_prompt {
            Some(system) => {
                total = total + Message::system(system.as_str()).estimated_tokens();
            },
            None => {},
        }
        let n = self.messages.len();
        let max = self.budget.max_tokens;
        let ghost ms = self.messages@;
        let ghost sys = self.system_tokens() as int;
        assert(ms.subrange(n as int, n as int) =~= Seq::<Message>::empty());
        let mut k: usize = 0;
        while k < n
            invariant
                n == ms.len(),
                ms == self.messages@,
                max == self.budget.max_tokens,
                k <= n,
                total == sys + sum_tokens(ms.subrange(n - k, n as int)),
                kept_from(ms, max as int, total as int, k as nat) == kept_from(
                    ms,
                    max as int,
                    sys,
                    0,
                ),
                trim_fits(token_seq(ms), max as int, total as int, k as nat),
                k > 0 ==> total <= max,
                k == 0 ==> total == sys,
            ensures
                k <= n,
                total == sys + sum_tokens(ms.subrange(n - k, n as int)),
                kept_from(ms, max as int, sys, 0) == k,
                k > 0 ==> total <= max,
                k == 0 ==> total == sys,
                k < n ==> total + ms[n - 1 - k].tokens() > max,
            decreases n - k,
        {
            let tokens = self.messages[n - 1 - k].estimated_tokens();
            if total + tokens <= max {
                proof {
                    let a = ms.subrange(n - k - 1, n as int);
                    assert(a.drop_first() =~= ms.subrange(n - k, n as int));
                    assert(a[0] == ms[n - 1 - k]);
                }
                total = total + tokens;
                k = k + 1;
            } else {
                break;
            }
        }
        let kept = slice_messages(&self.messages, n - k, n);
        self.messages = kept;
        self.budget.used_tokens = total;
        proof {
            if sys <= max {
                law_trim_twice_changes_nothing(ms, max, sys as u32);
            }
        }
    }

    /// Whether trimming stays clear of `u32` overflow (the condition `trim_to_budget` needs).
    pub fn trim_is_safe(&self) -> (b: bool)
        ensures
            b == trim_fits(
                token_seq(self.messages@),
                self.budget.max_tokens as int,
                self.system_tokens() as int,
                0,
            ),
    {
        let mut total: u64 = 0;
        match &self.system_prompt {
            Some(system) => {
                total = Message::system(system.as_str()).estimated_tokens() as u64;
            },
            None => {},
        }
        let n = self.messages.len();
        let max = self.budget.max_tokens as u64;
        let ghost ms = self.messages@;
        let mut k: usize = 0;
        while k < n
            invariant
                n == ms.len(),
                ms == self.messages@,
                max == self.budget.max_tokens,
                k <= n,
                total <= u32::MAX,
                trim_fits(token_seq(ms), max as int, total as int, k as nat) == trim_fits(
                    token_seq(ms),
                    max as int,
                    self.system_tokens() as int,
                    0,
                ),
            decreases n - k,
        {
            let t = total + self.messages[n - 1 - k].estimated_tokens() as u64;
            if t > 0xffff_ffffu64 {
                return false;
            }
            if t > max {
                return true;
            }
            total = t;
            k = k + 1;
        }
        true
    }

    /// Empties the history; the budget then holds only the system prompt.
    pub fn clear(&mut self)
        ensures
            final(self).messages@.len() == 0,
            final(self).system_prompt == old(self).system_prompt,
            final(self).budget.max_tokens == old(self).budget.max_tokens,
            final(self).budget.used_tokens == old(self).system_tokens(),
            final(self).accounted(),
    {
        self.messages.clear();
        self.budget.reset();
        match &self.system_prompt {
            Some(system) => {
                let t = Message::system(system.as_str()).estimated_tokens();
                self.budget.consume(t);
            },
            None => {},
        }
        assert(self.messages@ =~= Seq::<Message>::empty());
    }

    pub fn message_count(&self) -> (n: usize)
        ensures
            n == self.messages@.len(),
    {
        self.messages.len()
    }
}

/// `ms[lo..hi]` as a new vector.
pub fn slice_messages(ms: &Vec<Message>, lo: usize, hi: usize) -> (r: Vec<Message>)
    requires
        lo <= hi <= ms@.len(),
    ensures
        r@ == ms@.subrange(lo as int, hi as int),
{
    let mut r: Vec<Message> = Vec::new();
    let mut k = lo;
    while k < hi
        invariant
            lo <= k <= hi <= ms@.len(),
            r@ == ms@.subrange(lo as int, k as int),
        decreases hi - k,
    {
        r.push(ms[k].clone());
        k = k + 1;
        assert(r@ =~= ms@.subrange(lo as int, k as int));
    }
    r
}

} // verus!
