//! The walk that rebuilds the explicit strategy tree from a solved game.
//!
//! The solved game shows one position at a time: the one reached by the path
//! that was applied to it last. The walker decides what has to happen next
//! (query the position, apply the current path, or stop) and is told what
//! came of it; whoever owns the game carries the commands out.

use vstd::prelude::*;
use crate::solve::{SolvePhase, SolveRun};
use crate::tree::{lemma_decision_view, trees, NodeData, NodeView, StrategyNode, Tree};

verus! {

/// What the walker is waiting for.
#[derive(Clone, Copy, Debug, PartialEq, Eq, Structural)]
pub enum Pending {
    /// The position at the current path has to be queried.
    Observe,
    /// The current path, which was just extended by one action, has to be applied.
    Descend,
    /// The current path, which was just shortened by one action, has to be applied.
    Restore,
    /// The walk is over.
    Done,
}

/// What the owner of the game has to do next.
#[derive(Clone, Copy, Debug, PartialEq, Eq, Structural)]
pub enum Command {
    /// Query the position that the game shows and report it as `Event::Observed`.
    Query,
    /// Apply the walker's current history to the game and report `Event::Applied`.
    ApplyHistory,
    /// Nothing more: take the tree with `finish`.
    Finish,
}

/// What a query of the shown position found.
#[derive(Debug, PartialEq, Eq)]
pub enum Observation {
    Chance,
    Terminal,
    Decision(NodeData),
}

/// The mathematical value of an [`Observation`].
#[verifier::ext_equal]
pub enum ObservationView {
    Chance,
    Terminal,
    Decision(NodeView),
}

impl View for Observation {
    type V = ObservationView;

    open spec fn view(&self) -> ObservationView {
        match self {
            Observation::Chance => ObservationView::Chance,
            Observation::Terminal => ObservationView::Terminal,
            Observation::Decision(data) => ObservationView::Decision(data@),
        }
    }
}

/// What happened since the last command.
#[derive(Debug, PartialEq, Eq)]
pub enum Event {
    /// The shown position was queried.
    Observed(Observation),
    /// The history was applied.
    Applied,
}

/// The mathematical value of an [`Event`].
#[verifier::ext_equal]
pub enum EventView {
    Observed(ObservationView),
    Applied,
}

impl View for Event {
    type V = EventView;

    open spec fn view(&self) -> EventView {
        match self {
            Event::Observed(obs) => EventView::Observed(obs@),
            Event::Applied => EventView::Applied,
        }
    }
}

impl EventView {
    /// The action list of an observed decision fits in memory.
    pub open spec fn valid(self) -> bool {
        self matches EventView::Observed(ObservationView::Decision(data))
            ==> data.actions.len() <= usize::MAX
    }
}

/// A decision position whose children are still being collected.
#[verifier::ext_equal]
pub struct FrameModel {
    pub data: NodeView,
    pub children: Seq<Tree>,
}

/// The state of a walk as a mathematical value.
#[verifier::ext_equal]
pub struct WalkModel {
    /// The path from the root to the position that is being worked on.
    pub history: Seq<usize>,
    /// The path that was applied to the game last.
    pub cursor: Seq<usize>,
    /// The open decision positions along the history, the root first.
    pub frames: Seq<FrameModel>,
    pub pending: Pending,
    /// The finished tree, once the walk is over.
    pub result: Option<Tree>,
}

impl WalkModel {
    /// The state before anything happened: the game shows its root.
    pub open spec fn initial() -> WalkModel {
        WalkModel {
            history: Seq::empty(),
            cursor: Seq::empty(),
            frames: Seq::empty(),
            pending: Pending::Observe,
            result: None,
        }
    }

    /// The command that is due in this state.
    pub open spec fn command(self) -> Command {
        match self.pending {
            Pending::Observe => Command::Query,
            Pending::Descend => Command::ApplyHistory,
            Pending::Restore => Command::ApplyHistory,
            Pending::Done => Command::Finish,
        }
    }

    /// The state after the position at the history turned out to be `node`:
    /// at the root the walk is over; elsewhere the node joins its parent's
    /// children, the history loses its last action, and the shorter history
    /// is due to be applied.
    pub open spec fn complete(self, node: Tree) -> WalkModel {
        if self.frames.len() == 0 {
            WalkModel { pending: Pending::Done, result: Some(node), ..self }
        } else {
            let top = self.frames.last();
            WalkModel {
                history: self.history.drop_last(),
                frames: self.frames.drop_last().push(
                    FrameModel { data: top.data, children: top.children.push(node) },
                ),
                pending: Pending::Restore,
                ..self
            }
        }
    }

    /// The state after `event`. An event that does not answer the command
    /// that is due leaves the state as it is.
    pub open spec fn next(self, event: EventView) -> WalkModel {
        match event {
            EventView::Observed(obs) => if self.pending == Pending::Observe {
                match obs {
                    ObservationView::Decision(data) => if data.actions.len() == 0 {
                        self.complete(Tree::Decision { data, children: Seq::empty() })
                    } else {
                        WalkModel {
                            history: self.history.push(0),
                            frames: self.frames.push(
                                FrameModel { data, children: Seq::empty() },
                            ),
                            pending: Pending::Descend,
                            ..self
                        }
                    },
                    _ => self.complete(Tree::Empty),
                }
            } else {
                self
            },
            EventView::Applied => if self.pending == Pending::Descend {
                WalkModel { cursor: self.history, pending: Pending::Observe, ..self }
            } else if self.pending == Pending::Restore && self.frames.len() > 0 {
                let top = self.frames.last();
                if top.children.len() < top.data.actions.len() {
                    WalkModel {
                        history: self.history.push(top.children.len() as usize),
                        cursor: self.history,
                        pending: Pending::Descend,
                        ..self
                    }
                } else {
                    WalkModel {
                        cursor: self.history,
                        frames: self.frames.drop_last(),
                        ..self
                    }.complete(Tree::Decision { data: top.data, children: top.children })
                }
            } else {
                self
            },
        }
    }

    /// What holds of every state that a walk can reach. Where a query is due
    /// or the walk is over, the path applied last is the history. Where the
    /// history was extended and is due to be applied, the path applied last
    /// is the history without its last action: the parent. Where the history
    /// was shortened and is due to be applied, the path applied last is the
    /// history with the action of the child that was just completed.
    pub open spec fn wf(self) -> bool {
        &&& self.pending == Pending::Done ==> {
            &&& self.frames.len() == 0
            &&& self.history.len() == 0
            &&& self.result is Some
            &&& self.result->0.well_formed()
        }
        &&& self.pending == Pending::Observe ==> {
            &&& self.frames.len() == self.history.len()
            &&& self.cursor == self.history
        }
        &&& self.pending == Pending::Descend ==> {
            &&& self.frames.len() == self.history.len()
            &&& self.history.len() >= 1
            &&& self.cursor == self.history.drop_last()
        }
        &&& self.pending == Pending::Restore ==> {
            &&& self.frames.len() == self.history.len() + 1
            &&& self.frames.last().children.len() >= 1
            &&& self.cursor == self.history.push(
                (self.frames.last().children.len() - 1) as usize,
            )
        }
        &&& self.pending != Pending::Done ==> self.result is None
        &&& forall|k: int|
            0 <= k < self.frames.len() ==> {
                &&& (#[trigger] self.frames[k]).children.len() <= self.frames[k].data.actions.len()
                &&& self.frames[k].data.actions.len() <= usize::MAX
                &&& forall|j: int|
                    0 <= j < self.frames[k].children.len() ==> (
                    #[trigger] self.frames[k].children[j]).well_formed()
            }
        &&& forall|k: int|
            0 <= k < self.history.len() && k < self.frames.len() ==> {
                &&& (#[trigger] self.history[k]) == self.frames[k].children.len()
                &&& self.history[k] < self.frames[k].data.actions.len()
            }
    }
}

/// Well-formedness is kept by every event.
pub proof fn lemma_next_keeps_wf(s: WalkModel, event: EventView)
    requires
        s.wf(),
        event.valid(),
    ensures
        s.next(event).wf(),
{
    let t = s.next(event);
    match event {
        EventView::Observed(obs) => {
            if s.pending == Pending::Observe {
                match obs {
                    ObservationView::Decision(data) => {
                        if data.actions.len() == 0 {
                            lemma_complete_keeps_wf(
                                s,
                                Tree::Decision { data, children: Seq::empty() },
                            );
                        } else {
                            assert(t.history.drop_last() =~= s.history);
                            assert(t.wf());
                        }
                    },
                    _ => {
                        lemma_complete_keeps_wf(s, Tree::Empty);
                    },
                }
            }
        },
        EventView::Applied => {
            if s.pending == Pending::Descend {
                assert(t.wf());
            } else if s.pending == Pending::Restore && s.frames.len() > 0 {
                let top = s.frames.last();
                if top.children.len() < top.data.actions.len() {
                    assert(t.history.drop_last() =~= s.history);
                    assert(t.wf());
                } else {
                    let mid = WalkModel {
                        cursor: s.history,
                        frames: s.frames.drop_last(),
                        pending: Pending::Observe,
                        ..s
                    };
                    let node = Tree::Decision { data: top.data, children: top.children };
                    assert(mid.wf());
                    assert(node.well_formed());
                    lemma_complete_keeps_wf(mid, node);
                    assert(t == mid.complete(node));
                }
            }
        },
    }
}

/// Completing the position at the history of a state that awaits its
/// observation gives a well-formed state.
pub proof fn lemma_complete_keeps_wf(s: WalkModel, node: Tree)
    requires
        s.wf(),
        s.pending == Pending::Observe,
        node.well_formed(),
    ensures
        s.complete(node).wf(),
{
    let t = s.complete(node);
    if s.frames.len() > 0 {
        let last = s.frames.len() - 1;
        assert(s.history[last] == s.frames[last].children.len());
        assert(t.history.push(s.history.last()) =~= s.history);
        assert(t.frames.last().children.len() == s.frames[last].children.len() + 1);
        assert forall|k: int| 0 <= k < t.frames.len() implies {
            &&& (#[trigger] t.frames[k]).children.len() <= t.frames[k].data.actions.len()
            &&& t.frames[k].data.actions.len() <= usize::MAX
            &&& forall|j: int|
                0 <= j < t.frames[k].children.len() ==> (
                #[trigger] t.frames[k].children[j]).well_formed()
        } by {
            if k < last {
                assert(t.frames[k] == s.frames[k]);
            } else {
                assert(s.frames[k].children.len() <= s.frames[k].data.actions.len());
                assert forall|j: int| 0 <= j < t.frames[k].children.len() implies (
                #[trigger] t.frames[k].children[j]).well_formed() by {
                    if j < s.frames[k].children.len() {
                        assert(t.frames[k].children[j] == s.frames[k].children[j]);
                    }
                }
            }
        }
        assert forall|k: int| 0 <= k < t.history.len() && k < t.frames.len() implies {
            &&& (#[trigger] t.history[k]) == t.frames[k].children.len()
            &&& t.history[k] < t.frames[k].data.actions.len()
        } by {
            assert(t.frames[k] == s.frames[k]);
            assert(t.history[k] == s.history[k]);
        }
    }
}

struct Frame {
    data: NodeData,
    children: Vec<StrategyNode>,
}

impl View for Frame {
    type V = FrameModel;

    closed spec fn view(&self) -> FrameModel {
        FrameModel { data: self.data@, children: trees(self.children@) }
    }
}

spec fn frame_models(frames: Seq<Frame>) -> Seq<FrameModel> {
    Seq::new(frames.len(), |i: int| frames[i]@)
}

/// The walk over a solved game, as a state that is advanced event by event.
pub struct TreeWalker {
    history: Vec<usize>,
    frames: Vec<Frame>,
    pending: Pending,
    result: Option<StrategyNode>,
    cursor: Ghost<Seq<usize>>,
}

impl View for TreeWalker {
    type V = WalkModel;

    closed spec fn view(&self) -> WalkModel {
        Self::model(self.history@, self.frames@, self.pending, self.result, self.cursor@)
    }
}

impl TreeWalker {
    #[verifier::type_invariant]
    spec fn inv(self) -> bool {
        self@.wf()
    }

    spec fn model(
        history: Seq<usize>,
        frames: Seq<Frame>,
        pending: Pending,
        result: Option<StrategyNode>,
        cursor: Seq<usize>,
    ) -> WalkModel {
        WalkModel {
            history,
            cursor,
            frames: frame_models(frames),
            pending,
            result: match result {
                Some(node) => Some(node@),
                None => None,
            },
        }
    }

    /// A walk of the game that `solve` has solved, not yet begun. There is
    /// one only once the solve is finished, so that nothing is queried before
    /// the strategies are ready. The game is taken to show its root.
    pub fn begin(solve: &SolveRun) -> (walker: Option<Self>)
        ensures
            walker is Some <==> solve@.phase == SolvePhase::Finished,
            walker matches Some(w) ==> w@ == WalkModel::initial(),
    {
        if solve.is_finished() {
            Some(Self::new())
        } else {
            None
        }
    }

    fn new() -> (walker: Self)
        ensures
            walker@ == WalkModel::initial(),
    {
        let history: Vec<usize> = Vec::new();
        let frames: Vec<Frame> = Vec::new();
        assert(Self::model(history@, frames@, Pending::Observe, None, Seq::empty())
            =~= WalkModel::initial());
        TreeWalker {
            history,
            frames,
            pending: Pending::Observe,
            result: None,
            cursor: Ghost(Seq::empty()),
        }
    }

    /// The command that is due.
    pub fn command(&self) -> (command: Command)
        ensures
            command == self@.command(),
    {
        match self.pending {
            Pending::Observe => Command::Query,
            Pending::Descend => Command::ApplyHistory,
            Pending::Restore => Command::ApplyHistory,
            Pending::Done => Command::Finish,
        }
    }

    /// The path from the root to the position that is being worked on: what
    /// `Command::ApplyHistory` asks to be applied.
    pub fn history(&self) -> (history: &Vec<usize>)
        ensures
            history@ == self@.history,
    {
        &self.history
    }

    /// Whether the walk is over.
    pub fn is_finished(&self) -> (done: bool)
        ensures
            done <==> self@.pending == Pending::Done,
    {
        self.pending == Pending::Done
    }

    fn complete(
        history: Vec<usize>,
        frames: Vec<Frame>,
        cursor: Ghost<Seq<usize>>,
        node: StrategyNode,
    ) -> (next: Self)
        requires
            Self::model(history@, frames@, Pending::Observe, None, cursor@).wf(),
            node@.well_formed(),
        ensures
            next@ == Self::model(history@, frames@, Pending::Observe, None, cursor@).complete(
                node@,
            ),
    {
        let ghost before = Self::model(history@, frames@, Pending::Observe, None, cursor@);
        proof {
            lemma_complete_keeps_wf(before, node@);
        }
        let mut history = history;
        let mut frames = frames;
        if frames.len() == 0 {
            assert(Self::model(history@, frames@, Pending::Done, Some(node), cursor@)
                =~= before.complete(node@));
            TreeWalker { history, frames, pending: Pending::Done, result: Some(node), cursor }
        } else {
            let top = frames.pop().unwrap();
            let Frame { data, children } = top;
            let mut children = children;
            let ghost old_children = children@;
            children.push(node);
            assert(trees(children@) =~= trees(old_children).push(node@));
            let frame = Frame { data, children };
            frames.push(frame);
            history.pop();
            proof {
                let after = Self::model(history@, frames@, Pending::Restore, None, cursor@);
                assert(after.frames =~= before.complete(node@).frames);
                assert(after =~= before.complete(node@));
            }
            TreeWalker { history, frames, pending: Pending::Restore, result: None, cursor }
        }
    }

    /// Advances the walk by one event.
    ///
    /// After `Observed` of a chance or terminal position, or of a decision
    /// without actions, that position is complete. After `Observed` of a
    /// decision with actions the history is extended by the first action.
    /// After `Applied` on the way down the new position is to be queried;
    /// on the way up the parent goes on with its next action or, with none
    /// left, is complete itself. An event that does not answer the command
    /// that is due changes nothing.
    pub fn step(self, event: Event) -> (next: Self)
        ensures
            next@ == self@.next(event@),
            next@.wf(),
    {
        proof {
            use_type_invariant(&self);
        }
        let ghost before = self@;
        let TreeWalker { history, frames, pending, result, cursor } = self;
        let mut history = history;
        let mut frames = frames;
        let next = match event {
            Event::Observed(obs) => {
                if pending == Pending::Observe {
                    match obs {
                        Observation::Decision(data) => {
                            if data.actions.len() == 0 {
                                let children: Vec<StrategyNode> = Vec::new();
                                proof {
                                    lemma_decision_view(data, children);
                                    assert(trees(children@) =~= Seq::<Tree>::empty());
                                }
                                let node = StrategyNode::Decision { data, children };
                                Self::complete(history, frames, cursor, node)
                            } else {
                                proof {
                                    lemma_next_keeps_wf(before, event@);
                                }
                                let frame = Frame { data, children: Vec::new() };
                                assert(frame@.children =~= Seq::<Tree>::empty());
                                frames.push(frame);
                                history.push(0);
                                proof {
                                    let after = Self::model(
                                        history@,
                                        frames@,
                                        Pending::Descend,
                                        result,
                                        cursor@,
                                    );
                                    assert(after.frames =~= before.next(event@).frames);
                                    assert(after =~= before.next(event@));
                                }
                                TreeWalker {
                                    history,
                                    frames,
                                    pending: Pending::Descend,
                                    result,
                                    cursor,
                                }
                            }
                        },
                        _ => Self::complete(history, frames, cursor, StrategyNode::Empty),
                    }
                } else {
                    TreeWalker { history, frames, pending, result, cursor }
                }
            },
            Event::Applied => {
                proof {
                    lemma_next_keeps_wf(before, event@);
                }
                if pending == Pending::Descend {
                    assert(Self::model(history@, frames@, Pending::Observe, result, history@)
                        =~= before.next(event@));
                    TreeWalker {
                        cursor: Ghost(history@),
                        history,
                        frames,
                        pending: Pending::Observe,
                        result,
                    }
                } else if pending == Pending::Restore {
                    let ghost old_frames = frames@;
                    let top = frames.pop().unwrap();
                    assert(top@ == before.frames.last());
                    if top.children.len() < top.data.actions.len() {
                        history.push(top.children.len());
                        frames.push(top);
                        assert(frames@ =~= old_frames);
                        assert(Self::model(
                            history@,
                            frames@,
                            Pending::Descend,
                            result,
                            before.history,
                        ) =~= before.next(event@));
                        TreeWalker {
                            cursor: Ghost(before.history),
                            history,
                            frames,
                            pending: Pending::Descend,
                            result,
                        }
                    } else {
                        let Frame { data, children } = top;
                        proof {
                            lemma_decision_view(data, children);
                        }
                        let node = StrategyNode::Decision { data, children };
                        proof {
                            let mid = Self::model(
                                history@,
                                frames@,
                                Pending::Observe,
                                None,
                                history@,
                            );
                            assert(mid.frames =~= before.frames.drop_last());
                            assert(mid.wf());
                        }
                        Self::complete(history, frames, Ghost(history@), node)
                    }
                } else {
                    TreeWalker { history, frames, pending, result, cursor }
                }
            },
        };
        proof {
            use_type_invariant(&next);
        }
        next
    }

    /// The finished tree, once the walk is over; `None` before that.
    pub fn finish(self) -> (tree: Option<StrategyNode>)
        ensures
            self@.pending == Pending::Done ==> tree is Some && Some(tree->0@) == self@.result
                && tree->0@.well_formed(),
            self@.pending != Pending::Done ==> tree is None,
    {
        proof {
            use_type_invariant(&self);
        }
        let TreeWalker { history, frames, pending, result, cursor } = self;
        if pending == Pending::Done {
            result
        } else {
            None
        }
    }
}

} // verus!
