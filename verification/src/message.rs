//! Messages shown to the user for five seconds, information and errors,
//! and the nanosecond clock that times them.

use vstd::prelude::*;
use std::time::{Duration, Instant};

verus! {

#[verifier::external_type_specification]
#[verifier::external_body]
pub struct ExInstant(Instant);

/// `Instant::now`: the current instant of the monotonic clock. It depends
/// on the time, so nothing is stated of it.
#[verifier::external_body]
fn instant_now() -> (r: Instant) {
    Instant::now()
}

/// `Instant::elapsed`: the time since `t`. It depends on the time, so
/// nothing is stated of it.
#[verifier::external_body]
fn instant_elapsed(t: &Instant) -> (r: Duration) {
    t.elapsed()
}

/// `Duration::as_nanos`: the nanoseconds of `d`. A duration is opaque
/// here, so nothing is stated of the result.
#[verifier::external_body]
fn duration_as_nanos(d: &Duration) -> (r: u128) {
    d.as_nanos()
}

/// A monotonic clock that reads the nanoseconds since it was started.
pub struct Clock {
    origin: Instant,
}

impl Clock {
    /// A clock that starts now.
    pub fn start() -> Clock {
        Clock { origin: instant_now() }
    }

    /// The nanoseconds since the clock was started, at most `u64::MAX`.
    /// The reading depends on the time, so nothing is stated of it.
    pub fn now_ns(&self) -> u64 {
        let ns = duration_as_nanos(&instant_elapsed(&self.origin));
        saturate_u64(ns)
    }
}

/// `n` as a `u64`, or `u64::MAX` when it does not fit.
pub fn saturate_u64(n: u128) -> (r: u64)
    ensures
        r == if n <= u64::MAX { n } else { u64::MAX as u128 },
{
    if n <= u64::MAX as u128 {
        n as u64
    } else {
        u64::MAX
    }
}

/// How long a message stays, in nanoseconds: five seconds.
pub const MESSAGE_NANOS: u64 = 5_000_000_000;

/// The moment at which a message made at `made_ns` expires.
pub open spec fn expiry_of(made_ns: u64) -> int {
    made_ns + MESSAGE_NANOS
}

/// A message for the user, shown until it expires.
pub struct Message {
    content: String,
    is_error: bool,
    made_ns: u64,
}

/// What a message says, whether it reports an error, and the moment, in
/// nanoseconds of the application's clock, at which it expires.
pub struct MessageView {
    pub content: Seq<char>,
    pub is_error: bool,
    pub expires_ns: int,
}

impl View for Message {
    type V = MessageView;

    closed spec fn view(&self) -> MessageView {
        MessageView { content: self.content@, is_error: self.is_error, expires_ns: expiry_of(self.made_ns) }
    }
}

/// Whether a message is still to be shown at `at_ns`: the moment comes
/// before its expiry.
pub open spec fn is_live(m: MessageView, at_ns: u64) -> bool {
    at_ns < m.expires_ns
}

/// The messages still to be shown at `at_ns`, in order.
pub open spec fn live_at(s: Seq<MessageView>, at_ns: u64) -> Seq<MessageView> {
    s.filter(|m: MessageView| is_live(m, at_ns))
}

impl Message {
    /// Information for the user made at `now_ns`, shown for five seconds.
    pub fn info(msg: String, now_ns: u64) -> (m: Self)
        ensures
            m@ == (MessageView { content: msg@, is_error: false, expires_ns: expiry_of(now_ns) }),
    {
        Message { content: msg, is_error: false, made_ns: now_ns }
    }

    /// An error for the user made at `now_ns`, shown for five seconds.
    pub fn error(err: String, now_ns: u64) -> (m: Self)
        ensures
            m@ == (MessageView { content: err@, is_error: true, expires_ns: expiry_of(now_ns) }),
    {
        Message { content: err, is_error: true, made_ns: now_ns }
    }

    /// The message's text.
    pub fn content(&self) -> (r: &str)
        ensures
            r@ == self@.content,
    {
        self.content.as_str()
    }

    /// Whether the message reports an error.
    pub fn is_error(&self) -> (r: bool)
        ensures
            r == self@.is_error,
    {
        self.is_error
    }

    /// Whether the message is still to be shown at `at_ns`: whether that
    /// moment comes before its expiry.
    pub fn is_live_at(&self, at_ns: u64) -> (r: bool)
        ensures
            r == is_live(self@, at_ns),
    {
        at_ns < self.made_ns || at_ns - self.made_ns < MESSAGE_NANOS
    }
}

/// The views of a sequence of messages.
pub open spec fn message_views(s: Seq<Message>) -> Seq<MessageView> {
    s.map_values(|m: Message| m@)
}

/// The elements of `s` whose flag is set, in order.
pub open spec fn selected<T>(s: Seq<T>, flags: Seq<bool>) -> Seq<T>
    decreases s.len(),
{
    if s.len() == 0 || flags.len() == 0 {
        Seq::empty()
    } else {
        let rest = selected(s.drop_last(), flags.drop_last());
        if flags.last() {
            rest.push(s.last())
        } else {
            rest
        }
    }
}

/// Keeps the messages whose flag is set, in order.
pub fn keep_flagged(messages: Vec<Message>, keep: &Vec<bool>) -> (r: Vec<Message>)
    requires
        keep@.len() == messages@.len(),
    ensures
        message_views(r@) == selected(message_views(messages@), keep@),
{
    let mut out: Vec<Message> = Vec::new();
    let mut rest = messages;
    let ghost all = message_views(rest@);
    // Walk from the back so that messages can be moved out.
    let mut tail: Vec<Message> = Vec::new();
    let mut n = rest.len();
    assert(all.take(n as int) =~= all);
    assert(keep@.take(n as int) =~= keep@);
    assert(message_views(tail@).reverse() =~= Seq::<MessageView>::empty());
    assert(selected(all, keep@) + Seq::<MessageView>::empty() =~= selected(all, keep@));
    while n > 0
        invariant
            n == rest@.len(),
            n <= keep@.len(),
            keep@.len() == all.len(),
            message_views(rest@) == all.take(n as int),
            selected(all, keep@) == selected(all.take(n as int), keep@.take(n as int)) + message_views(tail@).reverse(),
        decreases n,
    {
        let m = rest.pop().unwrap();
        let ghost before = message_views(tail@);
        assert(all.take(n as int).drop_last() =~= all.take(n - 1));
        assert(keep@.take(n as int).drop_last() =~= keep@.take(n - 1));
        assert(all.take(n as int).last() == m@);
        assert(keep@.take(n as int).last() == keep@[n - 1]);
        if keep[n - 1] {
            tail.push(m);
            assert(message_views(tail@) =~= before.push(m@));
            assert(message_views(tail@).reverse() =~= seq![m@] + before.reverse());
            assert(selected(all.take(n as int), keep@.take(n as int)) == selected(all.take(n - 1), keep@.take(n - 1)).push(m@));
            assert(selected(all.take(n - 1), keep@.take(n - 1)).push(m@) + before.reverse() =~= selected(all.take(n - 1), keep@.take(n - 1)) + (seq![m@] + before.reverse()));
        }
        assert(message_views(rest@) =~= all.take(n - 1));
        n = n - 1;
    }
    assert(selected(all.take(0), keep@.take(0)) =~= Seq::<MessageView>::empty());
    // `tail` holds the kept messages last first.
    let mut k = tail.len();
    let ghost rev = message_views(tail@).reverse();
    while k > 0
        invariant
            k == tail@.len(),
            message_views(out@) + message_views(tail@).reverse() == rev,
        decreases k,
    {
        let ghost before_out = message_views(out@);
        let ghost before_tail = message_views(tail@);
        let m = tail.pop().unwrap();
        out.push(m);
        assert(before_tail.reverse() =~= seq![m@] + message_views(tail@).reverse());
        assert(message_views(out@) =~= before_out.push(m@));
        assert(message_views(out@) + message_views(tail@).reverse() =~= before_out + before_tail.reverse());
        k = k - 1;
    }
    assert(message_views(tail@).reverse() =~= Seq::<MessageView>::empty());
    assert(message_views(out@) =~= rev);
    out
}

/// Selecting by flags that tell, element by element, whether `pred` holds
/// is filtering by `pred`.
proof fn lemma_selected_is_filter<T>(s: Seq<T>, flags: Seq<bool>, pred: spec_fn(T) -> bool)
    requires
        flags.len() == s.len(),
        forall|i: int| 0 <= i < s.len() ==> flags[i] == pred(#[trigger] s[i]),
    ensures
        selected(s, flags) == s.filter(pred),
    decreases s.len(),
{
    reveal(Seq::filter);
    if s.len() > 0 {
        let (a, b) = (s.drop_last(), flags.drop_last());
        assert forall|i: int| 0 <= i < a.len() implies b[i] == pred(#[trigger] a[i]) by {
            assert(a[i] == s[i]);
        }
        lemma_selected_is_filter(a, b, pred);
        assert(flags.last() == pred(s[s.len() - 1]));
    }
}

/// Drops the messages that have expired at `at_ns`, keeping the others in
/// order.
pub fn drop_expired(messages: Vec<Message>, at_ns: u64) -> (r: Vec<Message>)
    ensures
        message_views(r@) == live_at(message_views(messages@), at_ns),
{
    let mut keep: Vec<bool> = Vec::new();
    let mut i: usize = 0;
    while i < messages.len()
        invariant
            i <= messages@.len(),
            keep@.len() == i,
            forall|j: int| 0 <= j < i ==> keep@[j] == is_live(#[trigger] messages@[j]@, at_ns),
        decreases messages.len() - i,
    {
        keep.push(messages[i].is_live_at(at_ns));
        i = i + 1;
    }
    let ghost views = message_views(messages@);
    proof {
        assert forall|j: int| 0 <= j < views.len() implies keep@[j] == (|m: MessageView| is_live(m, at_ns))(
            #[trigger] views[j],
        ) by {
            assert(views[j] == messages@[j]@);
        }
        lemma_selected_is_filter(views, keep@, |m: MessageView| is_live(m, at_ns));
    }
    keep_flagged(messages, &keep)
}

/// Dropping the expired messages keeps exactly those made less than five
/// seconds before, in order: one made at `made_ns` stays at `at_ns` if and
/// only if `at_ns < made_ns + 5_000_000_000`. No message is added.
pub proof fn law_messages_last_five_seconds(s: Seq<MessageView>, m: MessageView, made_ns: u64, at_ns: u64)
    requires
        m.expires_ns == expiry_of(made_ns),
    ensures
        live_at(s.push(m), at_ns) == if at_ns < made_ns + 5_000_000_000 {
            live_at(s, at_ns).push(m)
        } else {
            live_at(s, at_ns)
        },
        live_at(s, at_ns).len() <= s.len(),
        forall|i: int| 0 <= i < live_at(s, at_ns).len() ==> s.contains(#[trigger] live_at(s, at_ns)[i]),
{
    reveal(Seq::filter);
    assert(s.push(m).drop_last() =~= s);
    s.lemma_filter_len(|v: MessageView| is_live(v, at_ns));
    assert forall|i: int| 0 <= i < live_at(s, at_ns).len() implies s.contains(#[trigger] live_at(s, at_ns)[i]) by {
        lemma_filter_subset(s, at_ns, i);
    }
}

/// Each message kept is one of those that were there.
proof fn lemma_filter_subset(s: Seq<MessageView>, at_ns: u64, i: int)
    requires
        0 <= i < live_at(s, at_ns).len(),
    ensures
        s.contains(live_at(s, at_ns)[i]),
    decreases s.len(),
{
    reveal(Seq::filter);
    let a = s.drop_last();
    a.lemma_filter_len(|v: MessageView| is_live(v, at_ns));
    if i < live_at(a, at_ns).len() {
        lemma_filter_subset(a, at_ns, i);
        let k = choose|k: int| 0 <= k < a.len() && a[k] == live_at(a, at_ns)[i];
        assert(s[k] == a[k]);
    } else {
        assert(s[s.len() - 1] == live_at(s, at_ns)[i]);
    }
}

/// Dropping the expired messages at one moment and then at a later one is
/// dropping them at the later one; at the same moment twice, once.
pub proof fn law_expiry_composes(s: Seq<MessageView>, first_ns: u64, later_ns: u64)
    requires
        first_ns <= later_ns,
    ensures
        live_at(live_at(s, first_ns), later_ns) == live_at(s, later_ns),
        live_at(live_at(s, later_ns), later_ns) == live_at(s, later_ns),
    decreases s.len(),
{
    reveal(Seq::filter);
    if s.len() > 0 {
        law_expiry_composes(s.drop_last(), first_ns, later_ns);
        let a = s.drop_last();
        if is_live(s.last(), first_ns) {
            assert(live_at(s, first_ns).drop_last() =~= live_at(a, first_ns));
        }
        if is_live(s.last(), later_ns) {
            assert(live_at(s, later_ns).drop_last() =~= live_at(a, later_ns));
        }
    }
}

} // verus!
