//! The strategy tree that a walk over a solved game produces, and the
//! mathematical model of the game it is read from.

use vstd::prelude::*;

verus! {

/// A move that the acting player can choose, or the marker of a dealt card.
#[derive(Clone, Copy, Debug, PartialEq, Eq, Structural)]
pub enum Action {
    /// No move at all: the value before any action was taken.
    Nothing,
    Fold,
    Check,
    Call,
    Bet(i32),
    Raise(i32),
    AllIn(i32),
    Chance(u8),
}

/// What is read at one decision position: the actions on offer, the strategy
/// (one entry per action and private hand, each entry the bit pattern of a
/// single-precision probability), the player to act, and, where they are
/// asked for, the pot and the stack.
#[derive(Clone, Debug, PartialEq, Eq)]
pub struct NodeData {
    pub actions: Vec<Action>,
    pub strategy: Vec<u32>,
    pub player: usize,
    pub pot: Option<i32>,
    pub stack: Option<i32>,
}

/// The mathematical value of a [`NodeData`].
#[verifier::ext_equal]
pub struct NodeView {
    pub actions: Seq<Action>,
    pub strategy: Seq<u32>,
    pub player: usize,
    pub pot: Option<i32>,
    pub stack: Option<i32>,
}

impl View for NodeData {
    type V = NodeView;

    open spec fn view(&self) -> NodeView {
        NodeView {
            actions: self.actions@,
            strategy: self.strategy@,
            player: self.player,
            pot: self.pot,
            stack: self.stack,
        }
    }
}

/// One position of the explicit strategy tree. Chance and terminal positions
/// are the empty marker; a decision position carries its data and one child
/// per action, in the order of the actions.
#[derive(Debug, PartialEq, Eq)]
pub enum StrategyNode {
    Empty,
    Decision { data: NodeData, children: Vec<StrategyNode> },
}

/// The mathematical value of a [`StrategyNode`].
#[verifier::ext_equal]
pub enum Tree {
    Empty,
    Decision { data: NodeView, children: Seq<Tree> },
}

/// The values of a sequence of nodes, position by position.
pub open spec fn trees(nodes: Seq<StrategyNode>) -> Seq<Tree> {
    Seq::new(nodes.len(), |i: int| nodes[i]@)
}

impl StrategyNode {
    /// The mathematical value of this node.
    pub open spec fn tree(self) -> Tree
        decreases self,
    {
        match self {
            StrategyNode::Empty => Tree::Empty,
            StrategyNode::Decision { data, children } => Tree::Decision {
                data: data@,
                children: Seq::new(
                    children@.len(),
                    |i: int|
                        if 0 <= i < children@.len() {
                            children@[i].tree()
                        } else {
                            Tree::Empty
                        },
                ),
            },
        }
    }
}

impl View for StrategyNode {
    type V = Tree;

    open spec fn view(&self) -> Tree {
        self.tree()
    }
}

impl Tree {
    /// Every decision position has exactly one child per action.
    pub open spec fn well_formed(self) -> bool
        decreases self,
    {
        match self {
            Tree::Empty => true,
            Tree::Decision { data, children } => {
                &&& children.len() == data.actions.len()
                &&& forall|i: int|
                    0 <= i < children.len() ==> (#[trigger] children[i]).well_formed()
            },
        }
    }
}

impl NodeView {
    /// Whether the strategy has one entry per action and private hand of the
    /// player to act, who is one of the two players.
    pub open spec fn shaped(self, hands: (nat, nat)) -> bool {
        &&& self.player < 2
        &&& self.strategy.len() == self.actions.len() * (if self.player == 0 {
            hands.0
        } else {
            hands.1
        })
    }
}

impl Tree {
    /// Whether every decision position of the tree has a strategy of the
    /// right length for the numbers of private hands of the two players.
    pub open spec fn shaped(self, hands: (nat, nat)) -> bool
        decreases self,
    {
        match self {
            Tree::Empty => true,
            Tree::Decision { data, children } => {
                &&& data.shaped(hands)
                &&& forall|i: int| 0 <= i < children.len() ==> (#[trigger] children[i]).shaped(hands)
            },
        }
    }
}

impl NodeData {
    /// Whether the strategy has one entry per action and private hand of the
    /// player to act.
    pub fn has_shape(&self, hands_0: usize, hands_1: usize) -> (ok: bool)
        ensures
            ok == self@.shaped((hands_0 as nat, hands_1 as nat)),
    {
        if self.player >= 2 {
            return false;
        }
        let hands = if self.player == 0 {
            hands_0
        } else {
            hands_1
        };
        let actions = self.actions.len();
        assert(0 <= actions * hands <= 0xffff_ffff_ffff_ffff * 0xffff_ffff_ffff_ffff)
            by (nonlinear_arith)
            requires
                0 <= actions <= 0xffff_ffff_ffff_ffff,
                0 <= hands <= 0xffff_ffff_ffff_ffff,
        ;
        let entries: u128 = (actions as u128) * (hands as u128);
        self.strategy.len() as u128 == entries
    }
}

impl StrategyNode {
    /// Whether every decision position of the tree has a strategy with one
    /// entry per action and private hand of the player to act.
    pub fn has_shape(&self, hands_0: usize, hands_1: usize) -> (ok: bool)
        ensures
            ok == self@.shaped((hands_0 as nat, hands_1 as nat)),
        decreases self,
    {
        match self {
            StrategyNode::Empty => true,
            StrategyNode::Decision { data, children } => {
                proof {
                    lemma_decision_view(*data, *children);
                }
                if !data.has_shape(hands_0, hands_1) {
                    return false;
                }
                let mut i: usize = 0;
                while i < children.len()
                    invariant
                        i <= children.len(),
                        self == (StrategyNode::Decision { data: *data, children: *children }),
                        self@ == (Tree::Decision { data: data@, children: trees(children@) }),
                        data@.shaped((hands_0 as nat, hands_1 as nat)),
                        forall|k: int|
                            0 <= k < i ==> (#[trigger] children@[k])@.shaped(
                                (hands_0 as nat, hands_1 as nat),
                            ),
                    decreases children.len() - i,
                {
                    assert(decreases_to!(self => children@[i as int]));
                    if !children[i].has_shape(hands_0, hands_1) {
                        proof {
                            let hands = (hands_0 as nat, hands_1 as nat);
                            let below = trees(children@);
                            assert(below[i as int] == children@[i as int]@);
                            assert(!below[i as int].shaped(hands));
                            assert(self@->children == below);
                        }
                        return false;
                    }
                    i += 1;
                }
                assert forall|k: int| 0 <= k < trees(children@).len() implies (#[trigger] trees(
                    children@,
                )[k]).shaped((hands_0 as nat, hands_1 as nat)) by {
                    assert(children@[k]@.shaped((hands_0 as nat, hands_1 as nat)));
                }
                true
            },
        }
    }
}

/// The view of a decision node is the decision of its data over the values of
/// its children.
pub proof fn lemma_decision_view(data: NodeData, children: Vec<StrategyNode>)
    ensures
        (StrategyNode::Decision { data, children })@ == (Tree::Decision {
            data: data@,
            children: trees(children@),
        }),
{
    let lhs = (StrategyNode::Decision { data, children })@;
    assert(lhs->children =~= trees(children@));
}

/// The kind of a position of the solved game.
#[verifier::ext_equal]
pub enum GameTree {
    /// A card is dealt here.
    Chance,
    /// The hand is over here.
    Terminal,
    /// A player acts here; one subtree per action.
    Decision { data: NodeView, children: Seq<GameTree> },
}

impl GameTree {
    /// Every decision position has exactly one subtree per action, and no
    /// more actions than a list in memory can hold.
    pub open spec fn well_formed(self) -> bool
        decreases self,
    {
        match self {
            GameTree::Decision { data, children } => {
                &&& children.len() == data.actions.len()
                &&& children.len() <= usize::MAX
                &&& forall|i: int|
                    0 <= i < children.len() ==> (#[trigger] children[i]).well_formed()
            },
            _ => true,
        }
    }

    /// The position reached by taking the actions of `path` in turn.
    pub open spec fn at(self, path: Seq<usize>) -> Option<GameTree>
        decreases path.len(),
    {
        if path.len() == 0 {
            Some(self)
        } else {
            match self {
                GameTree::Decision { data, children } => if path[0] < children.len() {
                    children[path[0] as int].at(path.skip(1))
                } else {
                    None
                },
                _ => None,
            }
        }
    }

    /// The explicit strategy tree of this game: chance and terminal positions
    /// become the empty marker, a decision position keeps its data and the
    /// trees of its subtrees in their order.
    pub open spec fn serialize(self) -> Tree
        decreases self,
    {
        match self {
            GameTree::Decision { data, children } => Tree::Decision {
                data,
                children: Seq::new(
                    children.len(),
                    |i: int|
                        if 0 <= i < children.len() {
                            children[i].serialize()
                        } else {
                            Tree::Empty
                        },
                ),
            },
            _ => Tree::Empty,
        }
    }
}

} // verus!
