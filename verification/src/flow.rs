//! Flows: actions that a host performs one after the other until one of them fails.

use vstd::prelude::*;

verus! {

/// What is told of an action that failed.
#[derive(Clone, Copy, Debug)]
pub enum Failure {
    /// The host's own words.
    Verbatim,
    /// A fixed sentence in place of the host's words.
    Replaced(&'static str),
    /// A fixed beginning, then the host's words.
    Prefixed(&'static str),
}

/// What a `Failure` stands for.
#[verifier::ext_equal]
pub enum FailureView {
    Verbatim,
    Replaced(Seq<char>),
    Prefixed(Seq<char>),
}

impl View for Failure {
    type V = FailureView;

    open spec fn view(&self) -> FailureView {
        match *self {
            Failure::Verbatim => FailureView::Verbatim,
            Failure::Replaced(text) => FailureView::Replaced(text@),
            Failure::Prefixed(text) => FailureView::Prefixed(text@),
        }
    }
}

impl FailureView {
    /// What is told where the host said `words`.
    pub open spec fn told(self, words: Seq<char>) -> Seq<char> {
        match self {
            FailureView::Verbatim => words,
            FailureView::Replaced(text) => text,
            FailureView::Prefixed(text) => text + words,
        }
    }
}

impl Failure {
    /// What is told where the host said `words`.
    pub fn tell(&self, words: String) -> (told: String)
        ensures
            told@ == self@.told(words@),
    {
        match *self {
            Failure::Verbatim => words,
            Failure::Replaced(text) => text.to_string(),
            Failure::Prefixed(text) => {
                let mut told = text.to_string();
                told.append(words.as_str());
                told
            },
        }
    }
}

/// One action of a flow.
#[derive(Debug)]
pub struct Step<A> {
    pub action: A,
    pub failure: Failure,
}

/// What a `Step` stands for.
#[verifier::ext_equal]
pub struct StepView<A> {
    pub action: A,
    pub failure: FailureView,
}

impl<A: View> View for Step<A> {
    type V = StepView<A::V>;

    open spec fn view(&self) -> StepView<A::V> {
        StepView { action: self.action@, failure: self.failure@ }
    }
}

/// What a list of steps stands for.
pub open spec fn steps_view<A: View>(steps: Seq<Step<A>>) -> Seq<StepView<A::V>> {
    steps.map_values(|step: Step<A>| step@)
}

/// What a finished flow answers.
#[derive(Clone, Copy, Debug, PartialEq, Eq, Structural)]
pub enum Reply {
    /// That it was done.
    Done,
    /// How many items it handled.
    Count(usize),
}

/// What an answer stands for.
pub open spec fn verdict_view(verdict: Result<Reply, String>) -> Result<Reply, Seq<char>> {
    match verdict {
        Ok(reply) => Ok(reply),
        Err(text) => Err(text@),
    }
}

/// What the outcome of an action stands for.
pub open spec fn outcome_view(outcome: Result<(), String>) -> Result<(), Seq<char>> {
    match outcome {
        Ok(_) => Ok(()),
        Err(text) => Err(text@),
    }
}

/// The actions that a host has still to perform, and the answer after the last of them.
#[derive(Debug)]
pub struct Flow<A> {
    steps: Vec<Step<A>>,
    at: usize,
    verdict: Result<Reply, String>,
}

/// What a `Flow` stands for.
#[verifier::ext_equal]
pub struct FlowView<A> {
    /// The steps still to be performed.
    pub pending: Seq<StepView<A>>,
    /// The answer once nothing is pending.
    pub verdict: Result<Reply, Seq<char>>,
}

impl<A: View> View for Flow<A> {
    type V = FlowView<A::V>;

    closed spec fn view(&self) -> FlowView<A::V> {
        FlowView {
            pending: steps_view(self.steps@.skip(self.at as int)),
            verdict: verdict_view(self.verdict),
        }
    }
}

impl<A> FlowView<A> {
    /// A flow that does nothing and answers `text` as an error.
    pub open spec fn refused(text: Seq<char>) -> Self {
        FlowView { pending: seq![], verdict: Err(text) }
    }

    /// The flow once the host has reported the outcome of its first pending action. What is
    /// reported to a flow without pending actions changes nothing.
    pub open spec fn after(self, outcome: Result<(), Seq<char>>) -> Self {
        if self.pending.len() == 0 {
            self
        } else {
            match outcome {
                Ok(_) => FlowView { pending: self.pending.drop_first(), verdict: self.verdict },
                Err(words) => FlowView::refused(self.pending[0].failure.told(words)),
            }
        }
    }

    /// The flow once the host has reported `outcomes`, one after the other.
    pub open spec fn run(self, outcomes: Seq<Result<(), Seq<char>>>) -> Self
        decreases outcomes.len(),
    {
        if outcomes.len() == 0 {
            self
        } else {
            self.after(outcomes[0]).run(outcomes.drop_first())
        }
    }
}

impl<A> Flow<A> {
    #[verifier::type_invariant]
    spec fn in_range(&self) -> bool {
        self.at <= self.steps@.len()
    }
}

impl<A: View> Flow<A> {
    /// A flow of `steps` that ends with `verdict`.
    pub fn new(steps: Vec<Step<A>>, verdict: Result<Reply, String>) -> (flow: Self)
        ensures
            flow@ == (FlowView {
                pending: steps_view(steps@),
                verdict: verdict_view(verdict),
            }),
    {
        assert(steps@.skip(0) == steps@);
        Flow { steps, at: 0, verdict }
    }

    /// A flow that does nothing and answers `text` as an error.
    pub fn refusing(text: &str) -> (flow: Self)
        ensures
            flow@ == FlowView::<A::V>::refused(text@),
    {
        let flow = Flow::new(Vec::new(), Err(text.to_string()));
        assert(flow@.pending =~= seq![]);
        flow
    }

    /// The action to perform next; none where the flow has ended.
    pub fn action(&self) -> (action: Option<&A>)
        ensures
            action is Some <==> self@.pending.len() > 0,
            action matches Some(action) ==> action@ == self@.pending[0].action,
    {
        proof {
            use_type_invariant(self);
        }
        if self.at < self.steps.len() {
            Some(&self.steps[self.at].action)
        } else {
            None
        }
    }

    /// The flow's answer; none where actions are pending.
    pub fn answer(&self) -> (answer: Option<Result<Reply, String>>)
        ensures
            answer is Some <==> self@.pending.len() == 0,
            answer matches Some(verdict) ==> verdict_view(verdict) == self@.verdict,
    {
        proof {
            use_type_invariant(self);
        }
        if self.at < self.steps.len() {
            None
        } else {
            match &self.verdict {
                Ok(reply) => Some(Ok(*reply)),
                Err(text) => Some(Err(text.clone())),
            }
        }
    }

    /// Takes note of the outcome of the action performed last.
    pub fn report(&mut self, outcome: Result<(), String>)
        ensures
            final(self)@ == old(self)@.after(outcome_view(outcome)),
    {
        proof {
            use_type_invariant(&*self);
        }
        if self.at < self.steps.len() {
            let ghost pending = self.steps@.skip(self.at as int);
            assert(steps_view(pending)[0] == self.steps@[self.at as int]@);
            match outcome {
                Ok(_) => {
                    self.at = self.at + 1;
                    assert(self.steps@.skip(self.at as int) =~= pending.drop_first());
                    assert(self@.pending =~= steps_view(pending).drop_first());
                },
                Err(words) => {
                    let told = self.steps[self.at].failure.tell(words);
                    self.at = self.steps.len();
                    self.verdict = Err(told);
                    assert(self@.pending =~= seq![]);
                },
            }
        }
    }
}

/// A flow that has ended stays as it is, whatever is reported to it.
pub proof fn ended_flow_stays<A>(flow: FlowView<A>, outcomes: Seq<Result<(), Seq<char>>>)
    requires
        flow.pending.len() == 0,
    ensures
        flow.run(outcomes) == flow,
    decreases outcomes.len(),
{
    if outcomes.len() > 0 {
        ended_flow_stays(flow, outcomes.drop_first());
    }
}

/// While every action succeeds, a flow performs its actions in order and leaves none out.
pub proof fn successes_lead_on<A>(flow: FlowView<A>, outcomes: Seq<Result<(), Seq<char>>>)
    requires
        outcomes.len() <= flow.pending.len(),
        forall|i: int| 0 <= i < outcomes.len() ==> outcomes[i] is Ok,
    ensures
        flow.run(outcomes) == (FlowView {
            pending: flow.pending.skip(outcomes.len() as int),
            verdict: flow.verdict,
        }),
    decreases outcomes.len(),
{
    if outcomes.len() == 0 {
        assert(flow.pending.skip(0) =~= flow.pending);
    } else {
        assert(outcomes[0] is Ok);
        successes_lead_on(flow.after(outcomes[0]), outcomes.drop_first());
        assert(flow.pending.drop_first().skip(outcomes.len() - 1) =~= flow.pending.skip(
            outcomes.len() as int,
        ));
    }
}

/// The first action that fails ends a flow: nothing after it is performed, and the answer
/// is what is told of that action.
pub proof fn first_failure_ends<A>(
    flow: FlowView<A>,
    outcomes: Seq<Result<(), Seq<char>>>,
    failed: int,
)
    requires
        0 <= failed < outcomes.len(),
        failed < flow.pending.len(),
        forall|i: int| 0 <= i < failed ==> outcomes[i] is Ok,
        outcomes[failed] is Err,
    ensures
        flow.run(outcomes) == FlowView::<A>::refused(
            flow.pending[failed].failure.told(outcomes[failed]->Err_0),
        ),
    decreases outcomes.len(),
{
    let next = flow.after(outcomes[0]);
    if failed == 0 {
        ended_flow_stays(next, outcomes.drop_first());
    } else {
        assert(outcomes[0] is Ok);
        first_failure_ends(next, outcomes.drop_first(), failed - 1);
    }
}

/// Where one outcome is reported for each pending action, a flow that would answer `Ok`
/// does so if and only if every action succeeded.
pub proof fn success_needs_every_action<A>(
    flow: FlowView<A>,
    outcomes: Seq<Result<(), Seq<char>>>,
)
    requires
        outcomes.len() == flow.pending.len(),
        flow.verdict is Ok,
    ensures
        flow.run(outcomes).pending.len() == 0,
        flow.run(outcomes).verdict is Ok <==> forall|i: int|
            0 <= i < outcomes.len() ==> outcomes[i] is Ok,
    decreases outcomes.len(),
{
    if outcomes.len() > 0 {
        let next = flow.after(outcomes[0]);
        let rest = outcomes.drop_first();
        if outcomes[0] is Ok {
            success_needs_every_action(next, rest);
            assert(forall|i: int| 0 <= i < rest.len() ==> rest[i] == outcomes[i + 1]);
            assert(forall|i: int| 0 < i < outcomes.len() ==> outcomes[i] == rest[i - 1]);
        } else {
            ended_flow_stays(next, rest);
        }
    }
}

/// An action is reached if and only if all the actions before it succeeded.
pub proof fn reached_after_successes<A>(flow: FlowView<A>, outcomes: Seq<Result<(), Seq<char>>>)
    requires
        outcomes.len() < flow.pending.len(),
    ensures
        flow.run(outcomes).pending.len() > 0 <==> forall|i: int|
            0 <= i < outcomes.len() ==> outcomes[i] is Ok,
        flow.run(outcomes).pending.len() > 0 ==> flow.run(outcomes).pending[0]
            == flow.pending[outcomes.len() as int],
    decreases outcomes.len(),
{
    if outcomes.len() > 0 {
        let next = flow.after(outcomes[0]);
        let rest = outcomes.drop_first();
        if outcomes[0] is Ok {
            reached_after_successes(next, rest);
            assert(forall|i: int| 0 <= i < rest.len() ==> rest[i] == outcomes[i + 1]);
            assert(forall|i: int| 0 < i < outcomes.len() ==> outcomes[i] == rest[i - 1]);
        } else {
            ended_flow_stays(next, rest);
        }
    }
}

/// What is told of a failure is the host's words, the sentence in their place, or the
/// beginning and then the words.
pub proof fn failure_tells_its_words(text: Seq<char>, words: Seq<char>)
    ensures
        FailureView::Verbatim.told(words) == words,
        FailureView::Replaced(text).told(words) == text,
        FailureView::Prefixed(text).told(words).len() == text.len() + words.len(),
        FailureView::Prefixed(text).told(words).take(text.len() as int) == text,
        FailureView::Prefixed(text).told(words).skip(text.len() as int) == words,
{
    let told = FailureView::Prefixed(text).told(words);
    assert(told.take(text.len() as int) =~= text);
    assert(told.skip(text.len() as int) =~= words);
}

/// The first action that fails ends a flow with an error: nothing is left to be done.
pub proof fn failure_leaves_nothing_to_do<A>(flow: FlowView<A>, words: Seq<char>)
    requires
        flow.pending.len() > 0,
    ensures
        flow.after(Err(words)).pending.len() == 0,
        flow.after(Err(words)).verdict == Err::<Reply, Seq<char>>(
            flow.pending[0].failure.told(words),
        ),
{
}

/// A list of steps stands for its steps, one by one, each with its action and with what is
/// told where it fails; answers and outcomes stand for what they hold.
pub proof fn steps_stand_for_their_actions<A: View>(
    steps: Seq<Step<A>>,
    i: int,
    verdict: Result<Reply, String>,
    outcome: Result<(), String>,
)
    requires
        0 <= i < steps.len(),
    ensures
        steps_view(steps).len() == steps.len(),
        steps_view(steps)[i].action == steps[i].action@,
        steps_view(steps)[i].failure == match steps[i].failure {
            Failure::Verbatim => FailureView::Verbatim,
            Failure::Replaced(text) => FailureView::Replaced(text@),
            Failure::Prefixed(text) => FailureView::Prefixed(text@),
        },
        verdict is Ok ==> verdict_view(verdict) == Ok::<Reply, Seq<char>>(verdict->Ok_0),
        verdict is Err ==> verdict_view(verdict) == Err::<Reply, Seq<char>>(verdict->Err_0@),
        outcome is Ok <==> outcome_view(outcome) is Ok,
        outcome is Err ==> outcome_view(outcome)->Err_0 == outcome->Err_0@,
{
}

} // verus!
