//! What a walk yields when the game answers faithfully.

use vstd::prelude::*;
use crate::tree::{GameTree, Tree};
use crate::walk::{
    lemma_complete_keeps_wf, lemma_next_keeps_wf, Command, EventView, FrameModel,
    ObservationView, Pending, WalkModel,
};

verus! {

impl GameTree {
    /// What a query finds at the root of this game.
    pub open spec fn observe(self) -> ObservationView {
        match self {
            GameTree::Chance => ObservationView::Chance,
            GameTree::Terminal => ObservationView::Terminal,
            GameTree::Decision { data, children } => ObservationView::Decision(data),
        }
    }

    /// The number of events that a walk of this game takes.
    pub open spec fn steps(self) -> nat
        decreases self, 0nat,
    {
        match self {
            GameTree::Decision { data, children } => 1 + Self::steps_from(children, 0),
            _ => 1,
        }
    }

    /// The number of events that the walks of the subtrees from `first` on
    /// take, each with the two applications of the history around it.
    pub open spec fn steps_from(children: Seq<GameTree>, first: nat) -> nat
        decreases children, children.len() - first,
    {
        if first >= children.len() {
            0
        } else {
            children[first as int].steps() + 2 + Self::steps_from(children, first + 1)
        }
    }
}

/// The event by which a game that `game` describes answers the command that
/// is due in `s`: to a query, what stands at the path applied last.
pub open spec fn reply(game: GameTree, s: WalkModel) -> EventView {
    match s.command() {
        Command::Query => EventView::Observed(
            match game.at(s.cursor) {
                Some(position) => position.observe(),
                None => ObservationView::Terminal,
            },
        ),
        _ => EventView::Applied,
    }
}

/// The state after `n` events of a walk that `game` answers.
pub open spec fn run(game: GameTree, s: WalkModel, n: nat) -> WalkModel
    decreases n,
{
    if n == 0 {
        s
    } else {
        run(game, s.next(reply(game, s)), (n - 1) as nat)
    }
}

proof fn lemma_run_split(game: GameTree, s: WalkModel, a: nat, b: nat)
    ensures
        run(game, s, a + b) == run(game, run(game, s, a), b),
    decreases a,
{
    if a > 0 {
        lemma_run_split(game, s.next(reply(game, s)), (a - 1) as nat, b);
        assert((a + b - 1) as nat == (a - 1) as nat + b);
    }
}

proof fn lemma_at_child(game: GameTree, path: Seq<usize>, j: usize)
    requires
        game.at(path) is Some,
        game.at(path)->0 is Decision,
        j < game.at(path)->0->children.len(),
    ensures
        game.at(path.push(j)) == Some(game.at(path)->0->children[j as int]),
    decreases path.len(),
{
    let longer = path.push(j);
    if path.len() == 0 {
        assert(longer.skip(1) =~= Seq::<usize>::empty());
        assert(longer[0] == j);
        assert(game.at(path) == Some(game));
        let child = game->children[j as int];
        assert(child.at(longer.skip(1)) == Some(child));
    } else {
        assert(longer.skip(1) =~= path.skip(1).push(j));
        assert(longer[0] == path[0]);
        assert(game is Decision);
        let below = game->children[path[0] as int];
        lemma_at_child(below, path.skip(1), j);
    }
}

/// The tree of a well-formed game is well formed.
pub proof fn lemma_serialize_well_formed(game: GameTree)
    requires
        game.well_formed(),
    ensures
        game.serialize().well_formed(),
    decreases game,
{
    match game {
        GameTree::Decision { data, children } => {
            let out = game.serialize();
            assert forall|i: int| 0 <= i < out->children.len() implies (
            #[trigger] out->children[i]).well_formed() by {
                lemma_serialize_well_formed(children[i]);
            }
        },
        _ => {},
    }
}

spec fn serialized(children: Seq<GameTree>) -> Seq<Tree> {
    Seq::new(children.len(), |i: int| children[i].serialize())
}

/// From the state that awaits the observation of the position at its
/// history, the walk of that position ends in the state in which the position
/// is complete with its tree.
pub proof fn lemma_walk_subtree(game: GameTree, s: WalkModel, sub: GameTree)
    requires
        s.wf(),
        s.pending == Pending::Observe,
        game.at(s.history) == Some(sub),
        sub.well_formed(),
    ensures
        run(game, s, sub.steps()) == s.complete(sub.serialize()),
    decreases sub, 1nat, 0nat,
{
    let first = s.next(reply(game, s));
    assert(run(game, s, 1) == first) by {
        assert(run(game, first, 0) == first);
    }
    match sub {
        GameTree::Decision { data, children } => {
            if children.len() == 0 {
                assert(GameTree::steps_from(children, 0) == 0);
                assert(sub.serialize()->children =~= Seq::<Tree>::empty());
                assert(first =~= s.complete(sub.serialize()));
            } else {
                lemma_next_keeps_wf(s, reply(game, s));
                assert(serialized(children).take(0) =~= Seq::<Tree>::empty());
                assert(first.frames =~= s.frames.push(
                    FrameModel { data, children: serialized(children).take(0) },
                ));
                lemma_walk_children(game, s, sub, first, 0);
                lemma_run_split(game, s, 1, GameTree::steps_from(children, 0));
            }
        },
        _ => {
            assert(first =~= s.complete(sub.serialize()));
        },
    }
}

proof fn lemma_walk_children(game: GameTree, s: WalkModel, sub: GameTree, l: WalkModel, j: nat)
    requires
        s.wf(),
        s.pending == Pending::Observe,
        game.at(s.history) == Some(sub),
        sub.well_formed(),
        sub is Decision,
        j < sub->children.len(),
        l.wf(),
        l.pending == Pending::Descend,
        l.history == s.history.push(j as usize),
        l.frames == s.frames.push(
            FrameModel { data: sub->data, children: serialized(sub->children).take(j as int) },
        ),
        l.result == s.result,
    ensures
        run(game, l, GameTree::steps_from(sub->children, j)) == s.complete(sub.serialize()),
    decreases sub, 0nat, sub->children.len() - j,
{
    let children = sub->children;
    let data = sub->data;
    let child = children[j as int];
    // down: the extended history is applied
    let o = l.next(reply(game, l));
    lemma_next_keeps_wf(l, reply(game, l));
    assert(run(game, l, 1) == o) by {
        assert(run(game, o, 0) == o);
    }
    lemma_at_child(game, s.history, j as usize);
    assert(game.at(o.history) == Some(child));
    // the child is walked
    lemma_walk_subtree(game, o, child);
    lemma_serialize_well_formed(child);
    lemma_complete_keeps_wf(o, child.serialize());
    let r = o.complete(child.serialize());
    assert(r.history =~= s.history);
    let collected = serialized(children).take(j as int + 1);
    assert(serialized(children).take(j as int).push(child.serialize()) =~= collected);
    assert(r.frames =~= s.frames.push(FrameModel { data, children: collected }));
    // up: the shortened history is applied
    let u = r.next(reply(game, r));
    lemma_next_keeps_wf(r, reply(game, r));
    assert(run(game, r, 1) == u) by {
        assert(run(game, u, 0) == u);
    }
    lemma_run_split(game, l, 1, child.steps());
    lemma_run_split(game, l, 1 + child.steps(), 1);
    assert(run(game, l, child.steps() + 2) == u);
    let rest = GameTree::steps_from(children, j + 1);
    lemma_run_split(game, l, child.steps() + 2, rest);
    if j + 1 < children.len() {
        assert(u.frames =~= r.frames);
        lemma_walk_children(game, s, sub, u, j + 1);
    } else {
        assert(rest == 0);
        assert(run(game, u, 0) == u);
        assert(collected =~= sub.serialize()->children);
        assert(r.frames.drop_last() =~= s.frames);
        assert(u =~= s.complete(sub.serialize()));
    }
}

/// A walk of a well-formed game from its root, answered faithfully, is over
/// after `game.steps()` events, and what it built is exactly the explicit
/// strategy tree of the game: the data of every decision position, one child
/// per action in the order of the actions, and the empty marker at every
/// chance and terminal position.
pub proof fn lemma_walk_rebuilds_tree(game: GameTree)
    requires
        game.well_formed(),
    ensures
        run(game, WalkModel::initial(), game.steps()).pending == Pending::Done,
        run(game, WalkModel::initial(), game.steps()).result == Some(game.serialize()),
        run(game, WalkModel::initial(), game.steps()).command() == Command::Finish,
{
    let s = WalkModel::initial();
    assert(game.at(s.history) == Some(game));
    lemma_walk_subtree(game, s, game);
}

/// Entering a child and coming back leaves the game where it was: from a
/// state that is about to apply a history extended by one action, after the
/// application, the walk of the child and the restoring application, the
/// path applied last is again the one that was applied before the child was
/// entered, the history without that action. What a query finds there then is
/// what it found there before.
pub proof fn lemma_cycle_restores_parent(game: GameTree, l: WalkModel, child: GameTree)
    requires
        l.wf(),
        l.pending == Pending::Descend,
        game.at(l.history) == Some(child),
        child.well_formed(),
    ensures
        l.cursor == l.history.drop_last(),
        run(game, l, child.steps() + 2).cursor == l.cursor,
        game.at(run(game, l, child.steps() + 2).cursor) == game.at(l.cursor),
        reply(
            game,
            WalkModel { pending: Pending::Observe, ..run(game, l, child.steps() + 2) },
        ) == reply(game, WalkModel { pending: Pending::Observe, ..l }),
{
    let o = l.next(reply(game, l));
    lemma_next_keeps_wf(l, reply(game, l));
    assert(run(game, l, 1) == o) by {
        assert(run(game, o, 0) == o);
    }
    lemma_walk_subtree(game, o, child);
    lemma_serialize_well_formed(child);
    lemma_complete_keeps_wf(o, child.serialize());
    let r = o.complete(child.serialize());
    let u = r.next(reply(game, r));
    assert(run(game, r, 1) == u) by {
        assert(run(game, u, 0) == u);
    }
    lemma_run_split(game, l, 1, child.steps());
    lemma_run_split(game, l, 1 + child.steps(), 1);
    assert(run(game, l, child.steps() + 2) == u);
    assert(r.history =~= l.history.drop_last());
}

/// A chance or terminal position becomes the empty marker and is not
/// entered: the position is complete at once, the history does not grow, and
/// the next command is no query of a deeper position.
pub proof fn lemma_leaf_ends_descent(s: WalkModel, obs: ObservationView)
    requires
        s.wf(),
        s.pending == Pending::Observe,
        obs is Chance || obs is Terminal,
    ensures
        s.next(EventView::Observed(obs)) == s.complete(Tree::Empty),
        s.next(EventView::Observed(obs)).history.len() <= s.history.len(),
        s.next(EventView::Observed(obs)).command() != Command::Query,
{
}

} // verus!
