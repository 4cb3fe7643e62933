use vstd::prelude::*;
use crate::markdown::{MdEvent, MdTag, cmark_events, parse_markdown};
use crate::text::{string_eq_str};

verus! {

/// A markdown event, or a password that a note holds as `[pass`secret`]`.
pub enum EventExt {
    StandardEvent(MdEvent),
    Password(String),
}

/// cmark parses the passwords like so:
/// Text("[") <-- opening bracket
/// Text("pass") <-- marker
/// Code(secret) <-- body
/// Text("]") <-- closing bracket
/// The scan holds these events back until it knows whether they form a password.
pub enum PassState {
    Idle,
    AfterOpeningBracket(EventExt),
    AfterPass(Vec<EventExt>),
    AfterBody(Vec<EventExt>, String),
}

/// The scan state, as seen in specifications.
pub enum PassStateSpec {
    Idle,
    AfterOpeningBracket(EventExt),
    AfterPass(Seq<EventExt>),
    AfterBody(Seq<EventExt>, String),
}

impl PassState {
    pub open spec fn spec_state(&self) -> PassStateSpec {
        match self {
            PassState::Idle => PassStateSpec::Idle,
            PassState::AfterOpeningBracket(e) => PassStateSpec::AfterOpeningBracket(*e),
            PassState::AfterPass(v) => PassStateSpec::AfterPass(v@),
            PassState::AfterBody(v, p) => PassStateSpec::AfterBody(v@, *p),
        }
    }
}

pub open spec fn is_text(e: MdEvent, s: Seq<char>) -> bool {
    e matches MdEvent::Text(t) && t@ == s
}

/// The events that a scan state holds back.
pub open spec fn held_events(st: PassStateSpec) -> Seq<EventExt> {
    match st {
        PassStateSpec::Idle => Seq::empty(),
        PassStateSpec::AfterOpeningBracket(e) => seq![e],
        PassStateSpec::AfterPass(v) => v,
        PassStateSpec::AfterBody(v, _) => v,
    }
}

/// One step of the password scan: the new state and the new output.
pub open spec fn pass_step(st: PassStateSpec, out: Seq<EventExt>, e: MdEvent) -> (PassStateSpec, Seq<EventExt>) {
    if is_text(e, "["@) {
        (PassStateSpec::AfterOpeningBracket(EventExt::StandardEvent(e)), out + held_events(st))
    } else if st is AfterOpeningBracket && is_text(e, "pass"@) {
        (PassStateSpec::AfterPass(seq![st->AfterOpeningBracket_0, EventExt::StandardEvent(e)]), out)
    } else if st is AfterPass && e is Code {
        (PassStateSpec::AfterBody(st->AfterPass_0.push(EventExt::StandardEvent(e)), e->Code_0), out)
    } else if st is AfterBody && is_text(e, "]"@) {
        (PassStateSpec::Idle, out.push(EventExt::Password(st->AfterBody_1)))
    } else {
        (PassStateSpec::Idle, out + held_events(st) + seq![EventExt::StandardEvent(e)])
    }
}

/// The scan over a whole sequence of events: its final state and its output.
pub open spec fn pass_scan(evts: Seq<MdEvent>) -> (PassStateSpec, Seq<EventExt>)
    decreases evts.len(),
{
    if evts.len() == 0 {
        (PassStateSpec::Idle, Seq::empty())
    } else {
        let prev = pass_scan(evts.drop_last());
        pass_step(prev.0, prev.1, evts.last())
    }
}

/// The events of a note with its passwords recognized. Events still held back
/// when the events run out are given back at the end, as they were.
pub open spec fn events_with_passwords(evts: Seq<MdEvent>) -> Seq<EventExt> {
    pass_scan(evts).1 + held_events(pass_scan(evts).0)
}

/// Recognizes the passwords (`[pass`secret`]`) among the markdown events of a note.
pub fn get_events_with_passwords(events: Vec<MdEvent>) -> (r: Vec<EventExt>)
    ensures
        r@ == events_with_passwords(events@),
{
    let ghost evts = events@;
    let n = events.len();
    let mut events = events;
    // reverse, so that popping yields the events in order
    let mut rev: Vec<MdEvent> = Vec::new();
    while events.len() > 0
        invariant
            events@ == evts.take(events@.len() as int),
            events@.len() + rev@.len() == n,
            n == evts.len(),
            forall|j: int| 0 <= j < rev@.len() ==> rev@[j] == evts[n - 1 - j],
        decreases events@.len(),
    {
        let e = events.pop().unwrap();
        rev.push(e);
        assert(events@ == evts.take(events@.len() as int));
    }
    let mut state = PassState::Idle;
    let mut out: Vec<EventExt> = Vec::new();
    let mut i: usize = 0;
    while rev.len() > 0
        invariant
            i + rev@.len() == n,
            n == evts.len(),
            forall|j: int| 0 <= j < rev@.len() ==> rev@[j] == evts[n - 1 - j],
            pass_scan(evts.take(i as int)) == (state.spec_state(), out@),
        decreases rev@.len(),
    {
        let e = rev.pop().unwrap();
        assert(e == evts[i as int]);
        assert(evts.take(i + 1).drop_last() == evts.take(i as int));
        let ghost st0 = state.spec_state();
        let ghost out0 = out@;
        let is_open = is_text_event(&e, "[");
        if is_open {
            let old_state = state;
            flush_held(old_state, &mut out);
            state = PassState::AfterOpeningBracket(EventExt::StandardEvent(e));
        } else {
            let old_state = state;
            state = PassState::Idle;
            match old_state {
                PassState::AfterOpeningBracket(e0) => {
                    if is_text_event(&e, "pass") {
                        let mut v = Vec::new();
                        v.push(e0);
                        v.push(EventExt::StandardEvent(e));
                        assert(v@ =~= seq![e0, EventExt::StandardEvent(e)]);
                        state = PassState::AfterPass(v);
                    } else {
                        out.push(e0);
                        out.push(EventExt::StandardEvent(e));
                        assert(out@ =~= out0 + held_events(st0) + seq![EventExt::StandardEvent(e)]);
                    }
                },
                PassState::AfterPass(mut v) => {
                    match e {
                        MdEvent::Code(c) => {
                            let p = c.clone();
                            v.push(EventExt::StandardEvent(MdEvent::Code(c)));
                            state = PassState::AfterBody(v, p);
                        },
                        e => {
                            out.append(&mut v);
                            out.push(EventExt::StandardEvent(e));
                            assert(out@ =~= out0 + held_events(st0) + seq![EventExt::StandardEvent(e)]);
                        },
                    }
                },
                PassState::AfterBody(mut v, p) => {
                    if is_text_event(&e, "]") {
                        out.push(EventExt::Password(p));
                    } else {
                        out.append(&mut v);
                        out.push(EventExt::StandardEvent(e));
                        assert(out@ =~= out0 + held_events(st0) + seq![EventExt::StandardEvent(e)]);
                    }
                },
                PassState::Idle => {
                    out.push(EventExt::StandardEvent(e));
                    assert(out@ =~= out0 + held_events(st0) + seq![EventExt::StandardEvent(e)]);
                },
            }
        }
        assert(pass_step(st0, out0, evts[i as int]) == (state.spec_state(), out@));
        i = i + 1;
    }
    assert(evts.take(n as int) == evts);
    flush_held(state, &mut out);
    out
}

/// Gives back, in order, the events that a scan state holds.
fn flush_held(st: PassState, out: &mut Vec<EventExt>)
    ensures
        final(out)@ == old(out)@ + held_events(st.spec_state()),
{
    match st {
        PassState::Idle => {
            assert(out@ =~= old(out)@ + held_events(st.spec_state()));
        },
        PassState::AfterOpeningBracket(e0) => {
            out.push(e0);
            assert(out@ =~= old(out)@ + held_events(st.spec_state()));
        },
        PassState::AfterPass(mut v) => {
            out.append(&mut v);
        },
        PassState::AfterBody(mut v, _) => {
            out.append(&mut v);
        },
    }
}

/// `out` is what `evts` become when each window `[`, `pass`, `Code(p)`, `]` of
/// `evts` is replaced by `Password(p)` and every other event is kept as it is.
pub open spec fn expands_to(out: Seq<EventExt>, evts: Seq<MdEvent>) -> bool
    decreases out.len(),
{
    if out.len() == 0 {
        evts.len() == 0
    } else {
        match out.last() {
            EventExt::StandardEvent(e) => {
                &&& evts.len() > 0
                &&& evts.last() == e
                &&& expands_to(out.drop_last(), evts.drop_last())
            },
            EventExt::Password(p) => {
                &&& evts.len() >= 4
                &&& is_text(evts[evts.len() - 4], "["@)
                &&& is_text(evts[evts.len() - 3], "pass"@)
                &&& evts[evts.len() - 2] == MdEvent::Code(p)
                &&& is_text(evts[evts.len() - 1], "]"@)
                &&& expands_to(out.drop_last(), evts.subrange(0, evts.len() - 4))
            },
        }
    }
}

/// What the scan state says of the events seen so far.
pub open spec fn scan_inv(p: Seq<MdEvent>, st: PassStateSpec, out: Seq<EventExt>) -> bool {
    let n = p.len();
    let k = held_events(st).len();
    &&& k <= n
    &&& expands_to(out, p.take(n - k))
    &&& match st {
        PassStateSpec::Idle => true,
        PassStateSpec::AfterOpeningBracket(x) => {
            &&& x == EventExt::StandardEvent(p[n - 1])
            &&& is_text(p[n - 1], "["@)
        },
        PassStateSpec::AfterPass(v) => {
            &&& v.len() == 2
            &&& v[0] == EventExt::StandardEvent(p[n - 2])
            &&& v[1] == EventExt::StandardEvent(p[n - 1])
            &&& is_text(p[n - 2], "["@)
            &&& is_text(p[n - 1], "pass"@)
        },
        PassStateSpec::AfterBody(v, pw) => {
            &&& v.len() == 3
            &&& v[0] == EventExt::StandardEvent(p[n - 3])
            &&& v[1] == EventExt::StandardEvent(p[n - 2])
            &&& v[2] == EventExt::StandardEvent(p[n - 1])
            &&& is_text(p[n - 3], "["@)
            &&& is_text(p[n - 2], "pass"@)
            &&& p[n - 1] == MdEvent::Code(pw)
        },
    }
}

proof fn lemma_expands_push_std(out: Seq<EventExt>, evts: Seq<MdEvent>, e: MdEvent)
    requires
        expands_to(out, evts),
    ensures
        expands_to(out.push(EventExt::StandardEvent(e)), evts.push(e)),
{
    assert(out.push(EventExt::StandardEvent(e)).drop_last() =~= out);
    assert(evts.push(e).drop_last() =~= evts);
}

proof fn lemma_expands_append_std(out: Seq<EventExt>, evts: Seq<MdEvent>, hs: Seq<EventExt>, h: Seq<MdEvent>)
    requires
        expands_to(out, evts),
        hs.len() == h.len(),
        forall|i: int| 0 <= i < h.len() ==> hs[i] == EventExt::StandardEvent(h[i]),
    ensures
        expands_to(out + hs, evts + h),
    decreases h.len(),
{
    if h.len() == 0 {
        assert(out + hs =~= out);
        assert(evts + h =~= evts);
    } else {
        lemma_expands_append_std(out, evts, hs.drop_last(), h.drop_last());
        lemma_expands_push_std(out + hs.drop_last(), evts + h.drop_last(), h.last());
        assert((out + hs.drop_last()).push(EventExt::StandardEvent(h.last())) =~= out + hs);
        assert((evts + h.drop_last()).push(h.last()) =~= evts + h);
    }
}

proof fn lemma_scan_inv(p: Seq<MdEvent>)
    ensures
        scan_inv(p, pass_scan(p).0, pass_scan(p).1),
    decreases p.len(),
{
    if p.len() == 0 {
        assert(p.take(0) =~= p);
    } else {
        let q = p.drop_last();
        let n = p.len();
        lemma_scan_inv(q);
        let (st, out) = pass_scan(q);
        let e = p.last();
        let k = held_events(st).len();
        assert(q.take(q.len() - k) =~= p.take(n - 1 - k));
        if is_text(e, "["@) {
            lemma_scan_inv_hold(q, st, out);
            assert(p.take(n - 1) =~= q);
            assert(scan_inv(p, pass_scan(p).0, pass_scan(p).1));
        } else if st is AfterOpeningBracket && is_text(e, "pass"@) {
            assert(p.take(n - 2) =~= q.take(q.len() - k));
            assert(scan_inv(p, pass_scan(p).0, pass_scan(p).1));
        } else if st is AfterPass && e is Code {
            assert(p.take(n - 3) =~= q.take(q.len() - k));
            assert(scan_inv(p, pass_scan(p).0, pass_scan(p).1));
        } else if st is AfterBody && is_text(e, "]"@) {
            let pw = st->AfterBody_1;
            let prev = p.take(n - 4);
            assert(q.take(q.len() - k) =~= prev);
            assert(p.take(n as int) =~= p);
            assert(out.push(EventExt::Password(pw)).drop_last() =~= out);
            assert(p.subrange(0, n - 4) =~= prev);
            assert(scan_inv(p, pass_scan(p).0, pass_scan(p).1));
        } else {
            lemma_scan_inv_flush(q, st, out, e);
            assert(q.push(e) =~= p);
        }
    }
}

proof fn lemma_scan_inv_hold(q: Seq<MdEvent>, st: PassStateSpec, out: Seq<EventExt>)
    requires
        scan_inv(q, st, out),
    ensures
        expands_to(out + held_events(st), q),
{
    let k = held_events(st).len();
    let hs = held_events(st);
    let h = q.skip(q.len() - k);
    assert forall|i: int| 0 <= i < h.len() implies hs[i] == EventExt::StandardEvent(h[i]) by {
    }
    lemma_expands_append_std(out, q.take(q.len() - k), hs, h);
    assert(q.take(q.len() - k) + h =~= q);
}

proof fn lemma_scan_inv_flush(q: Seq<MdEvent>, st: PassStateSpec, out: Seq<EventExt>, e: MdEvent)
    requires
        scan_inv(q, st, out),
    ensures
        scan_inv(q.push(e), PassStateSpec::Idle, out + held_events(st) + seq![EventExt::StandardEvent(e)]),
{
    let k = held_events(st).len();
    let hs = held_events(st);
    let h = q.skip(q.len() - k);
    assert(h.len() == k);
    assert forall|i: int| 0 <= i < h.len() implies hs[i] == EventExt::StandardEvent(h[i]) by {
    }
    lemma_expands_append_std(out, q.take(q.len() - k), hs, h);
    assert(q.take(q.len() - k) + h =~= q);
    lemma_expands_push_std(out + hs, q, e);
    assert((out + hs).push(EventExt::StandardEvent(e)) =~= out + hs + seq![EventExt::StandardEvent(e)]);
    assert(q.push(e).take(q.len() + 1 as int) =~= q.push(e));
}

/// A plain (non-password) event that is a text event holding exactly `s`.
pub open spec fn is_std_text(e: EventExt, s: Seq<char>) -> bool {
    e matches EventExt::StandardEvent(m) && is_text(m, s)
}

pub open spec fn is_std_code(e: EventExt) -> bool {
    e matches EventExt::StandardEvent(m) && m is Code
}

/// At `i`, `s` holds a whole password markup `[`, `pass`, `Code(..)`, `]` left as
/// plain events.
pub open spec fn window_at(s: Seq<EventExt>, i: int) -> bool {
    &&& 0 <= i
    &&& i + 4 <= s.len()
    &&& is_std_text(s[i], "["@)
    &&& is_std_text(s[i + 1], "pass"@)
    &&& is_std_code(s[i + 2])
    &&& is_std_text(s[i + 3], "]"@)
}

/// No whole password markup is left as plain events.
pub open spec fn no_window(s: Seq<EventExt>) -> bool {
    forall|i: int| !#[trigger] window_at(s, i)
}

spec fn ends_with_window_prefix(s: Seq<EventExt>) -> bool {
    let n = s.len();
    ||| n >= 1 && is_std_text(s[n - 1], "["@)
    ||| n >= 2 && is_std_text(s[n - 2], "["@) && is_std_text(s[n - 1], "pass"@)
    ||| n >= 3 && is_std_text(s[n - 3], "["@) && is_std_text(s[n - 2], "pass"@) && is_std_code(s[n - 1])
}

spec fn held_shape(st: PassStateSpec) -> bool {
    match st {
        PassStateSpec::Idle => true,
        PassStateSpec::AfterOpeningBracket(x) => is_std_text(x, "["@),
        PassStateSpec::AfterPass(v) => v.len() == 2 && is_std_text(v[0], "["@) && is_std_text(v[1], "pass"@),
        PassStateSpec::AfterBody(v, _) => v.len() == 3 && is_std_text(v[0], "["@) && is_std_text(v[1], "pass"@)
            && is_std_code(v[2]),
    }
}

spec fn window_inv(st: PassStateSpec, out: Seq<EventExt>) -> bool {
    &&& no_window(out)
    &&& held_shape(st)
    &&& (st is Idle ==> !ends_with_window_prefix(out))
}

proof fn lemma_marker_texts_differ()
    ensures
        "["@ != "pass"@,
        "["@ != "]"@,
        "pass"@ != "]"@,
{
    reveal_strlit("[");
    reveal_strlit("pass");
    reveal_strlit("]");
    assert("["@.len() != "pass"@.len());
    assert("pass"@.len() != "]"@.len());
    assert("["@[0] != "]"@[0]);
}

/// Appending events that start with a plain `[` or a password cannot complete
/// a markup begun before them.
proof fn lemma_append_blocked(out: Seq<EventExt>, c: Seq<EventExt>)
    requires
        no_window(out),
        c.len() > 0,
        c.len() < 4,
        is_std_text(c[0], "["@) || c[0] is Password,
    ensures
        no_window(out + c),
{
    lemma_marker_texts_differ();
    let s = out + c;
    let n = out.len() as int;
    assert forall|i: int| !#[trigger] window_at(s, i) by {
        if window_at(s, i) {
            if i + 4 <= n {
                assert(window_at(out, i));
            } else if i < n {
                assert(s[n] == c[0]);
            }
        }
    }
}

/// Pushing one event keeps the markups whole only where they were.
proof fn lemma_push_event(s: Seq<EventExt>, x: EventExt)
    requires
        no_window(s),
        !(s.len() >= 3 && is_std_text(s[s.len() - 3], "["@) && is_std_text(s[s.len() - 2], "pass"@)
            && is_std_code(s[s.len() - 1]) && is_std_text(x, "]"@)),
    ensures
        no_window(s.push(x)),
{
    let t = s.push(x);
    assert forall|i: int| !#[trigger] window_at(t, i) by {
        if window_at(t, i) {
            if i + 4 <= s.len() {
                assert(window_at(s, i));
            }
        }
    }
}

proof fn lemma_window_step(st: PassStateSpec, out: Seq<EventExt>, e: MdEvent)
    requires
        window_inv(st, out),
    ensures
        window_inv(pass_step(st, out, e).0, pass_step(st, out, e).1),
{
    lemma_marker_texts_differ();
    let h = held_events(st);
    let se = EventExt::StandardEvent(e);
    if is_text(e, "["@) {
        if h.len() == 0 {
            assert(out + h =~= out);
        } else {
            lemma_append_blocked(out, h);
        }
    } else if st is AfterOpeningBracket && is_text(e, "pass"@) {
    } else if st is AfterPass && e is Code {
    } else if st is AfterBody && is_text(e, "]"@) {
        lemma_push_event(out, EventExt::Password(st->AfterBody_1));
    } else {
        let s = out + h;
        if h.len() == 0 {
            assert(s =~= out);
        } else {
            lemma_append_blocked(out, h);
        }
        let n = s.len();
        if n >= 1 && h.len() > 0 {
            assert(s[n - 1] == h[h.len() - 1]);
        }
        if n >= 2 && h.len() > 1 {
            assert(s[n - 2] == h[h.len() - 2]);
        }
        if n >= 2 && h.len() == 1 {
            assert(s[n - 1] == h[0]);
        }
        if n >= 3 && h.len() == 2 {
            assert(s[n - 1] == h[1]);
            assert(s[n - 2] == h[0]);
        }
        if n >= 3 && h.len() == 3 {
            assert(s[n - 1] == h[2]);
        }
        lemma_push_event(s, se);
        let t = s.push(se);
        assert(t[t.len() - 1] == se);
        assert(t.len() >= 2 ==> t[t.len() - 2] == s[n - 1]);
        assert(t.len() >= 3 ==> t[t.len() - 3] == s[n - 2]);
        assert(out + h + seq![se] =~= t);
    }
}

proof fn lemma_window_scan(p: Seq<MdEvent>)
    ensures
        window_inv(pass_scan(p).0, pass_scan(p).1),
    decreases p.len(),
{
    if p.len() > 0 {
        lemma_window_scan(p.drop_last());
        let prev = pass_scan(p.drop_last());
        lemma_window_step(prev.0, prev.1, p.last());
    }
}

/// No event is lost or invented, and no password is missed: the events with
/// passwords recognized are the markdown events with `[`, `pass`, `Code(secret)`,
/// `]` runs replaced by `Password(secret)`, every other event kept once, in order;
/// and no such run is left in them as plain events, so every complete run of the
/// markdown events is the one that became a password.
pub proof fn law_passwords_replace_windows(evts: Seq<MdEvent>)
    ensures
        expands_to(events_with_passwords(evts), evts),
        no_window(events_with_passwords(evts)),
{
    lemma_scan_inv(evts);
    lemma_scan_inv_hold(evts, pass_scan(evts).0, pass_scan(evts).1);
    lemma_window_scan(evts);
    let (st, out) = pass_scan(evts);
    if held_events(st).len() == 0 {
        assert(out + held_events(st) =~= out);
    } else {
        lemma_append_blocked(out, held_events(st));
    }
}

/// Whether an event is a text event holding exactly the given text.
fn is_text_event(e: &MdEvent, s: &str) -> (r: bool)
    ensures
        r == is_text(*e, s@),
{
    match e {
        MdEvent::Text(t) => string_eq_str(t, s),
        _ => false,
    }
}

} // verus!

verus! {

/// What one event contributes to a note's quick preview.
pub open spec fn preview_of_event(e: EventExt) -> Seq<char> {
    match e {
        EventExt::StandardEvent(MdEvent::Text(t)) => t@,
        EventExt::StandardEvent(MdEvent::Code(t)) => t@,
        EventExt::StandardEvent(MdEvent::Start(MdTag::Paragraph)) => "\n"@,
        EventExt::StandardEvent(MdEvent::End(MdTag::Paragraph)) => "\n"@,
        EventExt::StandardEvent(MdEvent::End(MdTag::Heading(_))) => "\n"@,
        EventExt::Password(_) => "[password]"@,
        _ => Seq::empty(),
    }
}

/// The quick preview of a sequence of events: the texts and inline code in order,
/// a line break around each paragraph and after each heading, and `[password]`
/// in place of each password.
pub open spec fn preview_of(evts: Seq<EventExt>) -> Seq<char>
    decreases evts.len(),
{
    if evts.len() == 0 {
        Seq::empty()
    } else {
        preview_of(evts.drop_last()) + preview_of_event(evts.last())
    }
}

/// Two event sequences that differ at most in the secrets of their passwords.
pub open spec fn same_but_secrets(a: Seq<EventExt>, b: Seq<EventExt>) -> bool {
    &&& a.len() == b.len()
    &&& forall|i: int| 0 <= i < a.len() ==> (#[trigger] a[i] == b[i] || (a[i] is Password && b[i] is Password))
}

pub proof fn lemma_same_but_secrets_drop_last(a: Seq<EventExt>, b: Seq<EventExt>)
    requires
        same_but_secrets(a, b),
        a.len() > 0,
    ensures
        same_but_secrets(a.drop_last(), b.drop_last()),
{
    assert forall|i: int| 0 <= i < a.len() - 1 implies (#[trigger] a.drop_last()[i] == b.drop_last()[i]
        || (a.drop_last()[i] is Password && b.drop_last()[i] is Password)) by {
        assert(a.drop_last()[i] == a[i]);
        assert(b.drop_last()[i] == b[i]);
    }
}

/// A password's secret never shows in the quick preview: two notes whose events
/// differ only in the secrets of their passwords have the same preview.
pub proof fn law_preview_hides_secrets(a: Seq<EventExt>, b: Seq<EventExt>)
    requires
        same_but_secrets(a, b),
    ensures
        preview_of(a) == preview_of(b),
    decreases a.len(),
{
    if a.len() > 0 {
        lemma_same_but_secrets_drop_last(a, b);
        law_preview_hides_secrets(a.drop_last(), b.drop_last());
        assert(a.last() == a[a.len() - 1]);
        assert(b.last() == b[b.len() - 1]);
    }
}

/// The events with the secret of every password replaced by `secret` (the empty
/// string erases them).
pub open spec fn with_secrets(evts: Seq<EventExt>, secret: String) -> Seq<EventExt> {
    evts.map_values(|e: EventExt| match e {
        EventExt::Password(_) => EventExt::Password(secret),
        other => other,
    })
}

pub proof fn lemma_with_secrets_same(evts: Seq<EventExt>, secret: String)
    ensures
        same_but_secrets(evts, with_secrets(evts, secret)),
{
    let w = with_secrets(evts, secret);
    assert forall|i: int| 0 <= i < evts.len() implies (#[trigger] evts[i] == w[i] || (evts[i] is Password && w[i] is Password)) by {
        assert(w[i] == (match evts[i] {
            EventExt::Password(_) => EventExt::Password(secret),
            other => other,
        }));
    }
}

/// The quick preview of a note is that of its events with their secrets erased
/// (replaced by any text, the empty one among them): no character of a secret
/// reaches it.
pub proof fn law_preview_without_secrets(evts: Seq<EventExt>, secret: String)
    ensures
        preview_of(evts) == preview_of(with_secrets(evts, secret)),
{
    lemma_with_secrets_same(evts, secret);
    law_preview_hides_secrets(evts, with_secrets(evts, secret));
}

/// The quick preview of the events of a note.
pub fn quick_preview_of_events(events: &Vec<EventExt>) -> (r: String)
    ensures
        r@ == preview_of(events@),
{
    let mut result = String::new();
    let mut i: usize = 0;
    while i < events.len()
        invariant
            i <= events@.len(),
            result@ == preview_of(events@.take(i as int)),
        decreases events@.len() - i,
    {
        assert(events@.take(i + 1).drop_last() == events@.take(i as int));
        match &events[i] {
            EventExt::StandardEvent(MdEvent::Text(t)) => result.append(t.as_str()),
            EventExt::StandardEvent(MdEvent::Code(t)) => result.append(t.as_str()),
            EventExt::StandardEvent(MdEvent::Start(MdTag::Paragraph)) => result.append("\n"),
            EventExt::StandardEvent(MdEvent::End(MdTag::Paragraph)) => result.append("\n"),
            EventExt::StandardEvent(MdEvent::End(MdTag::Heading(_))) => result.append("\n"),
            EventExt::Password(_) => result.append("[password]"),
            _ => {
                assert(preview_of_event(events@[i as int]) =~= Seq::<char>::empty());
            },
        }
        i = i + 1;
    }
    assert(events@.take(events@.len() as int) == events@);
    result
}

/// The markdown events of a note's text, with its passwords recognized.
pub fn markdown_events_with_passwords(input: &str) -> (r: Vec<EventExt>)
    ensures
        r@ == events_with_passwords(cmark_events(input@)),
{
    get_events_with_passwords(parse_markdown(input))
}

/// The short plain-text preview of a note written in markdown.
pub fn note_markdown_to_quick_preview(input: &str) -> (r: String)
    ensures
        r@ == preview_of(events_with_passwords(cmark_events(input@))),
{
    let events = markdown_events_with_passwords(input);
    quick_preview_of_events(&events)
}

} // verus!
