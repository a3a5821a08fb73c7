//! The loop that waits for a set of containers: round by round, each container
//! is looked at, until none is left or the time is over.

use vstd::prelude::*;

use crate::text::texts;

verus! {

/// What is to be done next.
#[derive(Clone, Copy, PartialEq, Eq, Structural, Debug)]
pub enum WaitAction {
    /// No container is left
    Finished,
    /// The time is over
    TimedOut,
    /// Look at the current container, after a sleep if `sleep` is set
    Poll { sleep: bool },
}

/// The waiting for a set of containers.
pub struct WaitLoop {
    /// The names of the containers that are waited for
    pub names: Vec<String>,
    /// The names of the containers that are looked at besides, but not waited for
    pub others: Vec<String>,
    /// The index of the current container, the others coming last
    pub i: usize,
    /// No round has begun with the time being over
    pub skip_fail: bool,
}

/// The value of a [WaitLoop].
#[verifier::ext_equal]
pub struct WaitView {
    pub names: Seq<Seq<char>>,
    pub others: Seq<Seq<char>>,
    pub i: int,
    pub skip_fail: bool,
}

impl View for WaitLoop {
    type V = WaitView;

    open spec fn view(&self) -> WaitView {
        WaitView {
            names: texts(self.names@),
            others: texts(self.others@),
            i: self.i as int,
            skip_fail: self.skip_fail,
        }
    }
}

impl WaitView {
    /// The waiting before any container was looked at.
    pub open spec fn initial(names: Seq<Seq<char>>, others: Seq<Seq<char>>) -> WaitView {
        WaitView { names, others, i: 0, skip_fail: true }
    }

    /// The current container.
    pub open spec fn current(self) -> Seq<char> {
        if self.i < self.names.len() {
            self.names[self.i]
        } else {
            self.others[self.i - self.names.len()]
        }
    }

    /// All the containers of a round have been looked at.
    pub open spec fn round_done(self) -> bool {
        self.i >= self.names.len() + self.others.len()
    }

    /// What is done next, `over` being whether the time is over.
    pub open spec fn action(self, over: bool) -> WaitAction {
        if self.names.len() == 0 {
            WaitAction::Finished
        } else if !self.round_done() {
            WaitAction::Poll { sleep: false }
        } else if !over {
            WaitAction::Poll { sleep: true }
        } else if self.skip_fail {
            WaitAction::Poll { sleep: false }
        } else {
            WaitAction::TimedOut
        }
    }

    /// The state after that decision: a round begins anew, and one extra round is
    /// given when the time is over.
    pub open spec fn decided(self, over: bool) -> WaitView {
        if self.names.len() == 0 || !self.round_done() {
            self
        } else {
            WaitView { i: 0, skip_fail: self.skip_fail && !over, ..self }
        }
    }

    /// The state after the current container has completed.
    pub open spec fn completed(self) -> WaitView {
        if self.i < self.names.len() {
            WaitView { names: self.names.remove(self.i), ..self }
        } else {
            WaitView { others: self.others.remove(self.i - self.names.len()), ..self }
        }
    }

    /// The state after the current container was found running.
    pub open spec fn passed(self) -> WaitView {
        WaitView { i: self.i + 1, ..self }
    }
}

impl WaitLoop {
    /// The current index is that of a container, or just behind the last.
    pub open spec fn wf(self) -> bool {
        &&& self.i <= self.names@.len() + self.others@.len()
        &&& self.names@.len() + self.others@.len() <= usize::MAX
    }

    /// There is a current container.
    pub open spec fn has_current(self) -> bool {
        self.wf() && self.i < self.names@.len() + self.others@.len()
    }

    /// Waits for the containers with the names, while looking at the others
    pub fn new(names: Vec<String>, others: Vec<String>) -> (r: Self)
        requires
            names@.len() + others@.len() <= usize::MAX,
        ensures
            r.wf(),
            r@ == WaitView::initial(texts(names@), texts(others@)),
            r.names == names,
            r.others == others,
    {
        WaitLoop { names, others, i: 0, skip_fail: true }
    }

    /// Decides what is done next, `over` being whether the time is over
    pub fn next(&mut self, over: bool) -> (r: WaitAction)
        requires
            old(self).wf(),
        ensures
            final(self).wf(),
            r == old(self)@.action(over),
            final(self)@ == old(self)@.decided(over),
            final(self).names == old(self).names,
            final(self).others == old(self).others,
            r is Poll ==> final(self).has_current(),
    {
        if self.names.len() == 0 {
            return WaitAction::Finished;
        }
        if self.i >= self.names.len() + self.others.len() {
            self.i = 0;
            if over {
                if self.skip_fail {
                    // give one extra round, this is strong enough for the guarantee for a
                    // duration of zero
                    self.skip_fail = false;
                } else {
                    return WaitAction::TimedOut;
                }
            } else {
                return WaitAction::Poll { sleep: true };
            }
        }
        WaitAction::Poll { sleep: false }
    }

    /// The name of the current container
    pub fn current(&self) -> (r: &String)
        requires
            self.has_current(),
        ensures
            r@ == self@.current(),
    {
        if self.i < self.names.len() {
            &self.names[self.i]
        } else {
            &self.others[self.i - self.names.len()]
        }
    }

    /// Whether the current container is one that is waited for
    pub fn is_waited_for(&self) -> (r: bool)
        ensures
            r == (self@.i < self@.names.len()),
    {
        self.i < self.names.len()
    }

    /// The current container has completed
    pub fn complete(&mut self)
        requires
            old(self).has_current(),
        ensures
            final(self).wf(),
            final(self)@ == old(self)@.completed(),
    {
        if self.i < self.names.len() {
            let _ = self.names.remove(self.i);
        } else {
            let k: usize = self.i - self.names.len();
            let _ = self.others.remove(k);
        }
        assert(self@ =~= old(self)@.completed());
    }

    /// The current container is still running
    pub fn pass(&mut self)
        requires
            old(self).has_current(),
        ensures
            final(self).wf(),
            final(self)@ == old(self)@.passed(),
            final(self).names == old(self).names,
            final(self).others == old(self).others,
    {
        self.i = self.i + 1;
    }
}

/// How the waiting ends if every container that is looked at has completed, `over`
/// saying for each decision whether the time is over: with success, with a
/// timeout, or not within those decisions.
pub open spec fn ends_when_all_complete(st: WaitView, over: Seq<bool>) -> Option<bool>
    decreases over.len(),
{
    if over.len() == 0 {
        None
    } else {
        match st.action(over[0]) {
            WaitAction::Finished => Some(true),
            WaitAction::TimedOut => Some(false),
            WaitAction::Poll { .. } => ends_when_all_complete(
                st.decided(over[0]).completed(),
                over.skip(1),
            ),
        }
    }
}

/// Waiting for containers that have all completed before always succeeds, also if
/// the time is over from the start: a duration of zero is enough.
pub proof fn zero_duration_is_enough(
    names: Seq<Seq<char>>,
    others: Seq<Seq<char>>,
    over: Seq<bool>,
)
    requires
        over.len() > names.len(),
    ensures
        ends_when_all_complete(WaitView::initial(names, others), over) == Some(true),
    decreases names.len(),
{
    if names.len() > 0 {
        let st = WaitView::initial(names, others);
        assert(st.decided(over[0]) == st);
        assert(st.completed() == WaitView::initial(names.remove(0), others));
        zero_duration_is_enough(names.remove(0), others, over.skip(1));
    }
}

/// The state after a number of decisions in each of which the current container
/// was found running.
pub open spec fn after_running(st: WaitView, over: Seq<bool>) -> Option<WaitView>
    decreases over.len(),
{
    if over.len() == 0 {
        Some(st)
    } else {
        match after_running(st, over.drop_last()) {
            Some(s) => if s.action(over.last()) is Poll {
                Some(s.decided(over.last()).passed())
            } else {
                None
            },
            None => None,
        }
    }
}

/// While containers run, a timeout is not declared before every container was
/// looked at twice, the second time after the time was found to be over.
pub proof fn timeout_gives_an_extra_round(
    names: Seq<Seq<char>>,
    others: Seq<Seq<char>>,
    over: Seq<bool>,
)
    requires
        names.len() > 0,
        over.len() < 2 * (names.len() + others.len()),
    ensures
        after_running(WaitView::initial(names, others), over) is Some,
        after_running(WaitView::initial(names, others), over)->0.action(true) is Poll,
        after_running(WaitView::initial(names, others), over)->0.action(false) is Poll,
{
    lemma_rounds(names, others, over);
}

/// The waiting is finished exactly when no container is left to be waited for, and
/// a timeout is only declared when the time is over and every container of a round
/// was looked at. While the time is not over, a new round begins with a sleep.
pub proof fn waiting_goes_on_until_the_time_is_over(st: WaitView)
    ensures
        !(st.action(false) is TimedOut),
        st.action(false) is Finished <==> st.names.len() == 0,
        st.action(true) is Finished <==> st.names.len() == 0,
        st.i < st.names.len() + st.others.len() ==> !(st.action(true) is TimedOut),
        st.names.len() > 0 && st.i >= st.names.len() + st.others.len() ==> st.action(false) == (
        WaitAction::Poll { sleep: true }),
        st.names.len() > 0 && st.i < st.names.len() + st.others.len() ==> st.action(false) == (
        WaitAction::Poll { sleep: false }) && st.action(true) == (WaitAction::Poll {
            sleep: false,
        }),
        st.decided(true).names == st.names,
        st.decided(true).others == st.others,
        st.decided(false).names == st.names,
        st.decided(false).others == st.others,
{
}

/// A decision with number `k` is made at the end of a round of `m` containers.
pub open spec fn ends_round(k: int, m: int) -> bool {
    k > 0 && k % m == 0
}

/// While all containers are found running, they are looked at in turn, and a
/// timeout is declared exactly when the time is found over at the end of a round
/// and had been found over at the end of an earlier one. A round that ends before
/// the time is over is followed by a sleep.
pub proof fn timeout_is_declared_after_two_rounds_over(
    names: Seq<Seq<char>>,
    others: Seq<Seq<char>>,
    over: Seq<bool>,
    now: bool,
)
    requires
        names.len() > 0,
        after_running(WaitView::initial(names, others), over) is Some,
    ensures
        ({
            let st = after_running(WaitView::initial(names, others), over)->0;
            let m = (names.len() + others.len()) as int;
            let k = over.len() as int;
            &&& st.action(now) is TimedOut <==> ends_round(k, m) && now && exists|j: int|
                0 <= j < k && #[trigger] over[j] && ends_round(j, m)
            &&& st.action(now) == (WaitAction::Poll { sleep: true }) <==> ends_round(k, m) && !now
            &&& !(st.action(now) is TimedOut) ==> st.decided(now).current() == (names + others)[k
                % m]
            &&& st.names == names
            &&& st.others == others
        }),
{
    lemma_running(names, others, over);
    let st = after_running(WaitView::initial(names, others), over)->0;
    let m = (names.len() + others.len()) as int;
    let k = over.len() as int;
    if k == 0 {
        vstd::arithmetic::div_mod::lemma_small_mod(0, m as nat);
    }
    assert(0 <= k % m < m) by (nonlinear_arith)
        requires
            m > 0,
            k >= 0,
    ;
}

proof fn lemma_running(names: Seq<Seq<char>>, others: Seq<Seq<char>>, over: Seq<bool>)
    requires
        names.len() > 0,
        after_running(WaitView::initial(names, others), over) is Some,
    ensures
        ({
            let s = after_running(WaitView::initial(names, others), over)->0;
            let m = (names.len() + others.len()) as int;
            let k = over.len() as int;
            &&& s.names == names
            &&& s.others == others
            &&& s.skip_fail <==> !(exists|j: int|
                0 <= j < k && #[trigger] over[j] && ends_round(j, m))
            &&& if ends_round(k, m) {
                s.i == m
            } else {
                s.i == k % m
            }
        }),
    decreases over.len(),
{
    let m = (names.len() + others.len()) as int;
    let k = over.len() as int;
    if k == 0 {
        assert(0int % m == 0) by (nonlinear_arith)
            requires
                m > 0,
        ;
    } else {
        let before = over.drop_last();
        lemma_running(names, others, before);
        let b = after_running(WaitView::initial(names, others), before)->0;
        assert(forall|j: int| 0 <= j < k - 1 ==> before[j] == over[j]);
        lemma_next_mod(k - 1, m);
        if exists|j: int| 0 <= j < k - 1 && #[trigger] before[j] && ends_round(j, m) {
            let j = choose|j: int| 0 <= j < k - 1 && #[trigger] before[j] && ends_round(j, m);
            assert(over[j] && ends_round(j, m));
        }
        if exists|j: int| 0 <= j < k && #[trigger] over[j] && ends_round(j, m) {
            let j = choose|j: int| 0 <= j < k && #[trigger] over[j] && ends_round(j, m);
            if j < k - 1 {
                assert(before[j] && ends_round(j, m));
            }
        }
        if over[k - 1] && ends_round(k - 1, m) {
            assert(over[k - 1] && ends_round(k - 1, m));
        }
    }
}

proof fn lemma_next_mod(a: int, m: int)
    requires
        0 <= a,
        0 < m,
    ensures
        0 <= a % m < m,
        (a + 1) % m == if a % m + 1 == m {
            0
        } else {
            a % m + 1
        },
{
    assert(0 <= a % m < m) by (nonlinear_arith)
        requires
            0 <= a,
            0 < m,
    ;
    vstd::arithmetic::div_mod::lemma_fundamental_div_mod(a, m);
    let q = a / m;
    let r = a % m;
    if r + 1 == m {
        assert(a + 1 == (q + 1) * m + 0) by (nonlinear_arith)
            requires
                a == m * q + r,
                r + 1 == m,
        ;
        vstd::arithmetic::div_mod::lemma_fundamental_div_mod_converse(a + 1, m, q + 1, 0);
    } else {
        assert(a + 1 == q * m + (r + 1)) by (nonlinear_arith)
            requires
                a == m * q + r,
        ;
        vstd::arithmetic::div_mod::lemma_fundamental_div_mod_converse(a + 1, m, q, r + 1);
    }
}

/// A container that has completed is not looked at again, and nothing else leaves:
/// the next one to be looked at is the one that followed it.
pub proof fn completed_container_leaves(st: WaitView)
    requires
        0 <= st.i < st.names.len() + st.others.len(),
    ensures
        st.current() == (st.names + st.others)[st.i],
        st.completed().names + st.completed().others == (st.names + st.others).remove(st.i),
        st.completed().names.len() == if st.i < st.names.len() {
            st.names.len() - 1
        } else {
            st.names.len() as int
        },
        st.completed().i == st.i,
        st.completed().skip_fail == st.skip_fail,
        st.passed().names == st.names,
        st.passed().others == st.others,
        st.passed().i == st.i + 1,
        st.passed().skip_fail == st.skip_fail,
{
    assert(st.completed().names + st.completed().others =~= (st.names + st.others).remove(st.i));
}

proof fn lemma_rounds(names: Seq<Seq<char>>, others: Seq<Seq<char>>, over: Seq<bool>)
    requires
        names.len() > 0,
        over.len() <= 2 * (names.len() + others.len()),
    ensures
        after_running(WaitView::initial(names, others), over) is Some,
        ({
            let s = after_running(WaitView::initial(names, others), over)->0;
            let n = names.len() + others.len();
            &&& s.names == names
            &&& s.others == others
            &&& over.len() <= n ==> s.i == over.len() && s.skip_fail
            &&& over.len() > n ==> s.i == over.len() - n
        }),
    decreases over.len(),
{
    if over.len() > 0 {
        lemma_rounds(names, others, over.drop_last());
    }
}

} // verus!
