//! The summary of a macro shown in the dashboard: how many events of each
//! kind it holds, how long it lasts, and which keys it presses most.
use vstd::prelude::*;
use crate::event::{RecordedEvent, EV_KEY, EV_REL, is_mouse_button};

verus! {

/// A relative motion (mouse move or wheel turn).
pub open spec fn is_motion(e: RecordedEvent) -> bool {
    e.event_type == EV_REL
}

/// A mouse button going down.
pub open spec fn is_click(e: RecordedEvent) -> bool {
    e.event_type == EV_KEY && is_mouse_button(e.code) && e.value == 1
}

/// A keyboard key going down.
pub open spec fn is_key_press(e: RecordedEvent) -> bool {
    e.event_type == EV_KEY && !is_mouse_button(e.code) && e.value == 1
}

/// A keyboard key with this code going down.
pub open spec fn is_press_of(e: RecordedEvent, code: u16) -> bool {
    is_key_press(e) && e.code == code
}

/// The predicate "is a relative motion".
pub open spec fn motion_pred() -> spec_fn(RecordedEvent) -> bool {
    |e: RecordedEvent| is_motion(e)
}

/// The predicate "is a mouse button press".
pub open spec fn click_pred() -> spec_fn(RecordedEvent) -> bool {
    |e: RecordedEvent| is_click(e)
}

/// The predicate "is a keyboard key press".
pub open spec fn key_press_pred() -> spec_fn(RecordedEvent) -> bool {
    |e: RecordedEvent| is_key_press(e)
}

/// How many events of `s` are relative motions.
pub open spec fn motion_count(s: Seq<RecordedEvent>) -> nat {
    s.filter(motion_pred()).len()
}

/// How many events of `s` are mouse button presses.
pub open spec fn click_count(s: Seq<RecordedEvent>) -> nat {
    s.filter(click_pred()).len()
}

/// How many events of `s` are keyboard key presses.
pub open spec fn key_press_count(s: Seq<RecordedEvent>) -> nat {
    s.filter(key_press_pred()).len()
}

/// The earliest time of the events of `s` (of a nonempty `s`).
pub open spec fn earliest_time(s: Seq<RecordedEvent>) -> int
    decreases s.len(),
{
    if s.len() <= 1 {
        s[0].time_us as int
    } else {
        let m = earliest_time(s.drop_last());
        if (s.last().time_us as int) < m {
            s.last().time_us as int
        } else {
            m
        }
    }
}

/// The latest time of the events of `s` (of a nonempty `s`).
pub open spec fn latest_time(s: Seq<RecordedEvent>) -> int
    decreases s.len(),
{
    if s.len() <= 1 {
        s[0].time_us as int
    } else {
        let m = latest_time(s.drop_last());
        if (s.last().time_us as int) > m {
            s.last().time_us as int
        } else {
            m
        }
    }
}

/// How many times `s` presses the keyboard key `code`.
pub open spec fn presses_of(s: Seq<RecordedEvent>, code: u16) -> nat
    decreases s.len(),
{
    if s.len() == 0 {
        0
    } else {
        presses_of(s.drop_last(), code) + if is_press_of(s.last(), code) {
            1nat
        } else {
            0nat
        }
    }
}

/// The figures shown for a macro.
pub struct MacroAnalysis {
    /// Number of events.
    pub total_events: usize,
    /// Time from the earliest to the latest event, in microseconds.
    pub duration_us: u64,
    /// Number of relative motions.
    pub mouse_moves: usize,
    /// Number of mouse button presses.
    pub mouse_clicks: usize,
    /// Number of keyboard key presses.
    pub key_presses: usize,
    /// The most pressed keyboard keys with their press counts, most pressed
    /// first, at most three.
    pub top_keys: Vec<(u16, usize)>,
}

/// `top` lists the most pressed keys of `s`: at most three distinct keys,
/// each with its press count, counts never increasing; a key left out is
/// pressed no more often than the last one listed, and only when three are
/// listed.
pub open spec fn top_pressed_keys(s: Seq<RecordedEvent>, top: Seq<(u16, usize)>) -> bool {
    &&& top.len() <= 3
    &&& forall|i: int| 0 <= i < top.len() ==> #[trigger] top[i].1 == presses_of(s, top[i].0) && top[i].1 > 0
    &&& forall|i: int, j: int| 0 <= i < j < top.len() ==> #[trigger] top[i].0 != #[trigger] top[j].0
    &&& forall|i: int, j: int| 0 <= i <= j < top.len() ==> #[trigger] top[i].1 >= #[trigger] top[j].1
    &&& forall|c: u16| #[trigger] presses_of(s, c) > 0 && !listed(top, c) ==> top.len() == 3 && presses_of(s, c)
        <= top[2].1
}

/// Whether `top` lists the key `code`.
pub open spec fn listed(top: Seq<(u16, usize)>, code: u16) -> bool {
    exists|i: int| 0 <= i < top.len() && top[i].0 == code
}

proof fn lemma_count_step(s: Seq<RecordedEvent>, i: int, pred: spec_fn(RecordedEvent) -> bool)
    requires
        0 <= i < s.len(),
    ensures
        s.take(i + 1).filter(pred).len() == s.take(i).filter(pred).len() + if pred(s[i]) {
            1int
        } else {
            0int
        },
{
    reveal(Seq::filter);
    assert(s.take(i + 1).drop_last() =~= s.take(i));
}

proof fn lemma_presses_step(s: Seq<RecordedEvent>, i: int, code: u16)
    requires
        0 <= i < s.len(),
    ensures
        presses_of(s.take(i + 1), code) == presses_of(s.take(i), code) + if is_press_of(s[i], code) {
            1int
        } else {
            0int
        },
{
    assert(s.take(i + 1).drop_last() =~= s.take(i));
}

/// Counts the presses of every keyboard key, in order of first press.
fn tally_presses(events: &Vec<RecordedEvent>) -> (t: Vec<(u16, usize)>)
    ensures
        forall|j: int| 0 <= j < t@.len() ==> #[trigger] t@[j].1 == presses_of(events@, t@[j].0) && t@[j].1 > 0,
        forall|j: int, k: int| 0 <= j < k < t@.len() ==> #[trigger] t@[j].0 != #[trigger] t@[k].0,
        forall|c: u16| #[trigger] presses_of(events@, c) > 0 ==> exists|j: int| 0 <= j < t@.len() && t@[j].0 == c,
{
    let mut t: Vec<(u16, usize)> = Vec::new();
    let mut i: usize = 0;
    while i < events.len()
        invariant
            i <= events@.len(),
            t@.len() <= i,
            forall|j: int| 0 <= j < t@.len() ==> #[trigger] t@[j].1 == presses_of(events@.take(i as int), t@[j].0)
                && t@[j].1 > 0,
            forall|j: int, k: int| 0 <= j < k < t@.len() ==> #[trigger] t@[j].0 != #[trigger] t@[k].0,
            forall|c: u16| #[trigger] presses_of(events@.take(i as int), c) > 0 ==> exists|j: int|
                0 <= j < t@.len() && t@[j].0 == c,
            forall|c: u16| presses_of(events@.take(i as int), c) <= i,
        decreases events@.len() - i,
    {
        let e = events[i];
        let ghost pre = events@.take(i as int);
        let ghost post = events@.take(i as int + 1);
        let ghost old_t = t@;
        assert forall|c: u16| #[trigger] presses_of(post, c) == presses_of(pre, c) + if is_press_of(e, c) {
            1int
        } else {
            0int
        } by {
            lemma_presses_step(events@, i as int, c);
        }
        if e.event_type == EV_KEY && !(e.code >= 272 && e.code <= 287) && e.value == 1 {
            let mut j: usize = 0;
            while j < t.len() && t[j].0 != e.code
                invariant
                    j <= t@.len(),
                    forall|k: int| 0 <= k < j ==> t@[k].0 != e.code,
                decreases t@.len() - j,
            {
                j = j + 1;
            }
            if j < t.len() {
                let n = t[j].1;
                t.set(j, (e.code, n + 1));
                proof {
                    assert forall|k: int| 0 <= k < t@.len() implies #[trigger] t@[k].1 == presses_of(post, t@[k].0)
                        && t@[k].1 > 0 by {
                        if k != j {
                            assert(t@[k] == old_t[k]);
                            assert(old_t[k].0 != e.code);
                        }
                    }
                    assert forall|c: u16| #[trigger] presses_of(post, c) > 0 implies exists|k: int|
                        0 <= k < t@.len() && t@[k].0 == c by {
                        if c == e.code {
                            assert(t@[j as int].0 == c);
                        } else {
                            assert(presses_of(pre, c) > 0);
                            let k = choose|k: int| 0 <= k < old_t.len() && old_t[k].0 == c;
                            assert(t@[k].0 == c);
                        }
                    }
                }
            } else {
                t.push((e.code, 1));
                proof {
                    assert(presses_of(pre, e.code) == 0) by {
                        if presses_of(pre, e.code) > 0 {
                            let k = choose|k: int| 0 <= k < old_t.len() && old_t[k].0 == e.code;
                        }
                    }
                    assert forall|k: int| 0 <= k < t@.len() implies #[trigger] t@[k].1 == presses_of(post, t@[k].0)
                        && t@[k].1 > 0 by {
                        if k < old_t.len() {
                            assert(t@[k] == old_t[k]);
                        }
                    }
                    assert forall|c: u16| #[trigger] presses_of(post, c) > 0 implies exists|k: int|
                        0 <= k < t@.len() && t@[k].0 == c by {
                        if c == e.code {
                            assert(t@[old_t.len() as int].0 == c);
                        } else {
                            assert(presses_of(pre, c) > 0);
                            let k = choose|k: int| 0 <= k < old_t.len() && old_t[k].0 == c;
                            assert(t@[k].0 == c);
                        }
                    }
                }
            }
        }
        i = i + 1;
    }
    assert(events@.take(events@.len() as int) =~= events@);
    t
}


/// The three (or fewer) most pressed keys of a tally, most pressed first,
/// the first tallied among equally pressed keys.
fn top_three(t: &Vec<(u16, usize)>) -> (top: Vec<(u16, usize)>)
    requires
        forall|j: int, k: int| 0 <= j < k < t@.len() ==> #[trigger] t@[j].0 != #[trigger] t@[k].0,
    ensures
        top@.len() <= 3,
        forall|i: int| 0 <= i < top@.len() ==> t@.contains(#[trigger] top@[i]),
        forall|i: int, j: int| 0 <= i < j < top@.len() ==> #[trigger] top@[i].0 != #[trigger] top@[j].0,
        forall|i: int, j: int| 0 <= i <= j < top@.len() ==> #[trigger] top@[i].1 >= #[trigger] top@[j].1,
        forall|j: int| 0 <= j < t@.len() && !listed(top@, #[trigger] t@[j].0) ==> top@.len() == 3 && t@[j].1
            <= top@[2].1,
{
    let mut taken: Vec<bool> = Vec::new();
    let mut k: usize = 0;
    while k < t.len()
        invariant
            k <= t@.len(),
            taken@.len() == k,
            forall|j: int| 0 <= j < k ==> !taken@[j],
        decreases t@.len() - k,
    {
        taken.push(false);
        k = k + 1;
    }
    let mut top: Vec<(u16, usize)> = Vec::new();
    let ghost mut picked: Seq<int> = Seq::empty();
    let mut round: usize = 0;
    let mut exhausted = false;
    while round < 3 && !exhausted
        invariant
            exhausted ==> forall|q: int| 0 <= q < t@.len() ==> #[trigger] taken@[q],
            round <= 3,
            top@.len() == round,
            picked.len() == round,
            taken@.len() == t@.len(),
            forall|i: int| 0 <= i < round ==> 0 <= #[trigger] picked[i] < t@.len() && top@[i] == t@[picked[i]]
                && taken@[picked[i]],
            forall|j: int| 0 <= j < t@.len() && #[trigger] taken@[j] ==> exists|i: int| 0 <= i < round && picked[i] == j,
            forall|i: int, i2: int| 0 <= i < i2 < round ==> #[trigger] picked[i] != #[trigger] picked[i2],
            forall|i: int, j: int| 0 <= i <= j < round ==> #[trigger] top@[i].1 >= #[trigger] top@[j].1,
            forall|i: int, j: int| 0 <= i < round && 0 <= j < t@.len() && !#[trigger] taken@[j] ==> #[trigger] top@[i].1
                >= t@[j].1,
            forall|j: int, k2: int| 0 <= j < k2 < t@.len() ==> #[trigger] t@[j].0 != #[trigger] t@[k2].0,
        decreases 3 - round, (if exhausted { 0int } else { 1int }),
    {
        let mut best: Option<usize> = None;
        let mut j: usize = 0;
        while j < t.len()
            invariant
                j <= t@.len(),
                taken@.len() == t@.len(),
                best is None ==> forall|q: int| 0 <= q < j ==> #[trigger] taken@[q],
                best matches Some(b) ==> b < j && !taken@[b as int] && forall|q: int| 0 <= q < j && !#[trigger] taken@[q]
                    ==> t@[q].1 <= t@[b as int].1,
            decreases t@.len() - j,
        {
            if !taken[j] {
                match best {
                    None => {
                        best = Some(j);
                    },
                    Some(b) => {
                        if t[j].1 > t[b].1 {
                            best = Some(j);
                        }
                    },
                }
            }
            j = j + 1;
        }
        match best {
            None => {
                exhausted = true;
            },
            Some(b) => {
                let ghost old_taken = taken@;
                let ghost old_top = top@;
                let ghost old_picked = picked;
                taken.set(b, true);
                top.push(t[b]);
                proof {
                    picked = picked.push(b as int);
                    assert(picked.drop_last() == old_picked);
                    assert forall|i: int| 0 <= i < round + 1 implies 0 <= #[trigger] picked[i] < t@.len()
                        && top@[i] == t@[picked[i]] && taken@[picked[i]] by {
                        if i < round {
                            assert(old_taken[picked[i]]);
                        }
                    }
                    assert forall|q: int| 0 <= q < t@.len() && #[trigger] taken@[q] implies exists|i: int|
                        0 <= i < round + 1 && picked[i] == q by {
                        if q != b {
                            assert(old_taken[q]);
                            let i = choose|i: int| 0 <= i < round && old_picked[i] == q;
                            assert(picked[i] == q);
                        } else {
                            assert(picked[round as int] == q);
                        }
                    }
                    assert forall|i: int, i2: int| 0 <= i < i2 < round + 1 implies #[trigger] picked[i]
                        != #[trigger] picked[i2] by {
                        if i2 == round {
                            assert(old_taken[picked[i]]);
                        }
                    }
                    assert forall|i: int, q: int| 0 <= i <= q < round + 1 implies #[trigger] top@[i].1
                        >= #[trigger] top@[q].1 by {
                        if q == round && i < round {
                            assert(!old_taken[b as int]);
                            assert(old_top[i].1 >= t@[b as int].1);
                        }
                    }
                    assert forall|i: int, q: int| 0 <= i < round + 1 && 0 <= q < t@.len() && !#[trigger] taken@[q]
                        implies #[trigger] top@[i].1 >= t@[q].1 by {
                        assert(!old_taken[q]);
                        if i < round {
                            assert(old_top[i] == top@[i]);
                        }
                    }
                }
                round = round + 1;
            },
        }
    }
    proof {
        assert forall|q: int| 0 <= q < t@.len() && !listed(top@, #[trigger] t@[q].0) implies top@.len() == 3
            && t@[q].1 <= top@[2].1 by {
            if taken@[q] {
                let i = choose|i: int| 0 <= i < round && picked[i] == q;
                assert(top@[i] == t@[q]);
                assert(listed(top@, t@[q].0));
            }
            assert(!exhausted);
            assert(round == 3);
            assert(top@[2].1 >= t@[q].1);
        }
        assert forall|i: int| 0 <= i < top@.len() implies t@.contains(#[trigger] top@[i]) by {
            assert(top@[i] == t@[picked[i]]);
        }

        assert forall|i: int, i2: int| 0 <= i < i2 < top@.len() implies #[trigger] top@[i].0
            != #[trigger] top@[i2].0 by {
            assert(top@[i] == t@[picked[i]]);
            assert(top@[i2] == t@[picked[i2]]);
        }
    }
    top
}


proof fn lemma_time_bounds(s: Seq<RecordedEvent>)
    requires
        s.len() > 0,
    ensures
        forall|k: int| 0 <= k < s.len() ==> earliest_time(s) <= #[trigger] s[k].time_us <= latest_time(s),
        exists|k: int| 0 <= k < s.len() && #[trigger] s[k].time_us == earliest_time(s),
        exists|k: int| 0 <= k < s.len() && #[trigger] s[k].time_us == latest_time(s),
    decreases s.len(),
{
    if s.len() > 1 {
        let d = s.drop_last();
        lemma_time_bounds(d);
        assert forall|k: int| 0 <= k < s.len() implies earliest_time(s) <= #[trigger] s[k].time_us
            <= latest_time(s) by {
            if k < s.len() - 1 {
                assert(s[k] == d[k]);
            }
        }
        let a = choose|k: int| 0 <= k < d.len() && #[trigger] d[k].time_us == earliest_time(d);
        let b = choose|k: int| 0 <= k < d.len() && #[trigger] d[k].time_us == latest_time(d);
        assert(s[a] == d[a]);
        assert(s[b] == d[b]);
        assert(s[s.len() - 1] == s.last());
    } else {
        assert(s[0].time_us == earliest_time(s));
    }
}

/// Motions, clicks and key presses are distinct kinds of events, so together
/// they never outnumber the events.
pub proof fn lemma_counts_within_total(s: Seq<RecordedEvent>)
    ensures
        motion_count(s) + click_count(s) + key_press_count(s) <= s.len(),
    decreases s.len(),
{
    reveal(Seq::filter);
    if s.len() > 0 {
        lemma_counts_within_total(s.drop_last());
    }
}

/// The figures count event by event: the counts of two runs of events put
/// together add up, and a single event counts as a motion when it is a
/// relative event (type 2), as a click when it is a key-type event (type 1)
/// going down (value 1) under a mouse button code (272 to 287), and as a key
/// press when it is a key-type event going down under any other code.
pub proof fn lemma_counts_by_event(a: Seq<RecordedEvent>, b: Seq<RecordedEvent>, e: RecordedEvent)
    ensures
        motion_count(a + b) == motion_count(a) + motion_count(b),
        click_count(a + b) == click_count(a) + click_count(b),
        key_press_count(a + b) == key_press_count(a) + key_press_count(b),
        motion_count(seq![e]) == (if e.event_type == 2 { 1nat } else { 0nat }),
        click_count(seq![e]) == (if e.event_type == 1 && 272 <= e.code <= 287 && e.value == 1 { 1nat } else { 0nat }),
        key_press_count(seq![e]) == (if e.event_type == 1 && !(272 <= e.code <= 287) && e.value == 1 {
            1nat
        } else {
            0nat
        }),
{
    Seq::filter_distributes_over_add(a, b, motion_pred());
    Seq::filter_distributes_over_add(a, b, click_pred());
    Seq::filter_distributes_over_add(a, b, key_press_pred());
    reveal(Seq::filter);
    let one = seq![e];
    assert(one.drop_last() =~= Seq::<RecordedEvent>::empty());
    assert(one.last() == e);
    assert(Seq::<RecordedEvent>::empty().filter(motion_pred()).len() == 0);
    assert(Seq::<RecordedEvent>::empty().filter(click_pred()).len() == 0);
    assert(Seq::<RecordedEvent>::empty().filter(key_press_pred()).len() == 0);
    assert(one.filter(motion_pred()).len() == (if e.event_type == 2 { 1nat } else { 0nat }));
    assert(one.filter(click_pred()).len() == (if e.event_type == 1 && 272 <= e.code <= 287 && e.value == 1 { 1nat } else { 0nat }));
}

/// The figures of a macro's events; `None` for a macro without events.
pub fn analyze_events(events: &Vec<RecordedEvent>) -> (r: Option<MacroAnalysis>)
    ensures
        r is None <==> events@.len() == 0,
        r matches Some(a) ==> {
            &&& a.total_events == events@.len()
            &&& a.duration_us == latest_time(events@) - earliest_time(events@)
            &&& a.mouse_moves == motion_count(events@)
            &&& a.mouse_clicks == click_count(events@)
            &&& a.key_presses == key_press_count(events@)
            &&& top_pressed_keys(events@, a.top_keys@)
        },
{
    if events.len() == 0 {
        return None;
    }
    let mut earliest: u64 = events[0].time_us;
    let mut latest: u64 = events[0].time_us;
    let mut mouse_moves: usize = 0;
    let mut mouse_clicks: usize = 0;
    let mut key_presses: usize = 0;
    let mut i: usize = 0;
    proof {
        reveal(Seq::filter);
        assert(events@.take(0) =~= Seq::<RecordedEvent>::empty());
    }
    while i < events.len()
        invariant
            0 < events@.len(),
            i <= events@.len(),
            i == 0 ==> earliest == events@[0].time_us && latest == events@[0].time_us,
            i > 0 ==> earliest == earliest_time(events@.take(i as int)) && latest == latest_time(events@.take(i as int)),
            mouse_moves == events@.take(i as int).filter(motion_pred()).len(),
            mouse_clicks == events@.take(i as int).filter(click_pred()).len(),
            key_presses == events@.take(i as int).filter(key_press_pred()).len(),
            mouse_moves <= i && mouse_clicks <= i && key_presses <= i,
        decreases events@.len() - i,
    {
        let e = events[i];
        proof {
            lemma_count_step(events@, i as int, motion_pred());
            lemma_count_step(events@, i as int, click_pred());
            lemma_count_step(events@, i as int, key_press_pred());
            let t = events@.take(i as int + 1);
            assert(t.drop_last() =~= events@.take(i as int));
            assert(t.last() == e);
            if i == 0 {
                assert(t.len() == 1);
            }
        }
        if e.time_us < earliest {
            earliest = e.time_us;
        }
        if e.time_us > latest {
            latest = e.time_us;
        }
        if e.event_type == EV_REL {
            mouse_moves = mouse_moves + 1;
        } else if e.event_type == EV_KEY {
            let is_mouse_btn = e.code >= 272 && e.code <= 287;
            if is_mouse_btn {
                if e.value == 1 {
                    mouse_clicks = mouse_clicks + 1;
                }
            } else {
                if e.value == 1 {
                    key_presses = key_presses + 1;
                }
            }
        }
        i = i + 1;
    }
    assert(events@.take(events@.len() as int) =~= events@);
    proof {
        lemma_time_bounds(events@);
    }
    let tally = tally_presses(events);
    let top = top_three(&tally);
    proof {
        assert forall|k: int| 0 <= k < top@.len() implies #[trigger] top@[k].1 == presses_of(events@, top@[k].0)
            && top@[k].1 > 0 by {
            assert(tally@.contains(top@[k]));
            let j = choose|j: int| 0 <= j < tally@.len() && tally@[j] == top@[k];
        }
        assert forall|c: u16| #[trigger] presses_of(events@, c) > 0 && !listed(top@, c) implies top@.len() == 3
            && presses_of(events@, c) <= top@[2].1 by {
            let j = choose|j: int| 0 <= j < tally@.len() && tally@[j].0 == c;
            assert(!listed(top@, tally@[j].0));
        }
    }
    Some(MacroAnalysis {
        total_events: events.len(),
        duration_us: latest - earliest,
        mouse_moves,
        mouse_clicks,
        key_presses,
        top_keys: top,
    })
}

} // verus!
