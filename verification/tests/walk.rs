use postflop_pipeline::solve::{SolveEvent, SolveRun};
use postflop_pipeline::tree::{Action, NodeData, StrategyNode};
use postflop_pipeline::walk::{Command, Event, Observation, TreeWalker};

/// A walk of a game whose solve is finished.
fn begin() -> TreeWalker {
    let solve = SolveRun::new(0, 0).step(SolveEvent::Measured(0)).step(SolveEvent::Finalized);
    TreeWalker::begin(&solve).unwrap()
}

/// A game that shows one position at a time, like a solved game does.
enum Game {
    Chance,
    Terminal,
    Decision(NodeData, Vec<Game>),
}

fn data(actions: Vec<Action>, player: usize, pot: i32) -> NodeData {
    let strategy = (0..actions.len() as u32 * 2).map(|i| 0x3f00_0000 + i).collect();
    NodeData { actions, strategy, player, pot: Some(pot), stack: Some(100 - pot) }
}

fn position<'a>(game: &'a Game, path: &[usize]) -> &'a Game {
    match path.split_first() {
        None => game,
        Some((first, rest)) => match game {
            Game::Decision(_, children) => position(&children[*first], rest),
            _ => panic!("the path leaves the game"),
        },
    }
}

fn observe(game: &Game) -> Observation {
    match game {
        Game::Chance => Observation::Chance,
        Game::Terminal => Observation::Terminal,
        Game::Decision(data, _) => Observation::Decision(data.clone()),
    }
}

/// Runs the walker against the game; returns the tree and the paths applied.
fn run(game: &Game) -> (StrategyNode, Vec<Vec<usize>>, usize) {
    let mut cursor: Vec<usize> = Vec::new();
    let mut applied = Vec::new();
    let mut events = 0;
    let mut walker = begin();
    loop {
        match walker.command() {
            Command::Query => {
                assert_eq!(walker.history(), &cursor);
                walker = walker.step(Event::Observed(observe(position(game, &cursor))));
            }
            Command::ApplyHistory => {
                cursor = walker.history().clone();
                applied.push(cursor.clone());
                walker = walker.step(Event::Applied);
            }
            Command::Finish => break,
        }
        events += 1;
    }
    assert!(walker.is_finished());
    (walker.finish().unwrap(), applied, events)
}

/// The tree and the applied paths, by plain recursion with a shared history.
fn by_recursion(game: &Game, history: &mut Vec<usize>, applied: &mut Vec<Vec<usize>>) -> StrategyNode {
    match position(game, history) {
        Game::Decision(data, below) => {
            let mut children = Vec::new();
            for i in 0..below.len() {
                history.push(i);
                applied.push(history.clone());
                children.push(by_recursion(game, history, applied));
                history.pop();
                applied.push(history.clone());
            }
            StrategyNode::Decision { data: data.clone(), children }
        }
        _ => StrategyNode::Empty,
    }
}

fn sample() -> Game {
    Game::Decision(
        data(vec![Action::Check, Action::Bet(10)], 0, 20),
        vec![
            Game::Decision(
                data(vec![Action::Check, Action::Bet(10), Action::AllIn(100)], 1, 20),
                vec![
                    Game::Chance,
                    Game::Decision(
                        data(vec![Action::Fold, Action::Call], 0, 30),
                        vec![Game::Terminal, Game::Chance],
                    ),
                    Game::Decision(
                        data(vec![Action::Fold, Action::Call], 0, 120),
                        vec![Game::Terminal, Game::Terminal],
                    ),
                ],
            ),
            Game::Decision(
                data(vec![Action::Fold, Action::Call, Action::Raise(30)], 1, 30),
                vec![
                    Game::Terminal,
                    Game::Chance,
                    Game::Decision(
                        data(vec![Action::Fold, Action::Call], 0, 60),
                        vec![Game::Terminal, Game::Chance],
                    ),
                ],
            ),
        ],
    )
}

#[test]
fn walk_rebuilds_the_tree_of_the_game() {
    let game = sample();
    let (tree, _, _) = run(&game);
    let expected = by_recursion(&game, &mut Vec::new(), &mut Vec::new());
    assert_eq!(tree, expected);
    match &tree {
        StrategyNode::Decision { data, children } => {
            assert_eq!(data.actions, vec![Action::Check, Action::Bet(10)]);
            assert_eq!(data.player, 0);
            assert_eq!(data.pot, Some(20));
            assert_eq!(data.stack, Some(80));
            assert_eq!(children.len(), 2);
            match &children[1] {
                StrategyNode::Decision { data, children } => {
                    assert_eq!(data.actions, vec![Action::Fold, Action::Call, Action::Raise(30)]);
                    assert_eq!(children[0], StrategyNode::Empty);
                    assert_eq!(children[1], StrategyNode::Empty);
                    assert_ne!(children[2], StrategyNode::Empty);
                }
                StrategyNode::Empty => panic!("a decision was expected"),
            }
        }
        StrategyNode::Empty => panic!("a decision was expected"),
    }
}

#[test]
fn walk_applies_the_paths_of_the_recursion_in_its_order() {
    let game = sample();
    let (_, applied, _) = run(&game);
    let mut expected = Vec::new();
    by_recursion(&game, &mut Vec::new(), &mut expected);
    assert_eq!(applied, expected);
    assert_eq!(applied[0], vec![0]);
    assert_eq!(applied[1], vec![0, 0]);
    assert_eq!(applied[2], vec![0]);
    assert_eq!(applied[3], vec![0, 1]);
    assert_eq!(applied.last().unwrap(), &Vec::<usize>::new());
}

#[test]
fn walk_of_two_leaves_takes_seven_events() {
    let game = Game::Decision(
        data(vec![Action::Check, Action::Bet(10)], 0, 20),
        vec![Game::Terminal, Game::Chance],
    );
    let (tree, applied, events) = run(&game);
    assert_eq!(events, 7);
    assert_eq!(applied, vec![vec![0], vec![], vec![1], vec![]]);
    assert_eq!(
        tree,
        StrategyNode::Decision {
            data: data(vec![Action::Check, Action::Bet(10)], 0, 20),
            children: vec![StrategyNode::Empty, StrategyNode::Empty],
        }
    );
}

#[test]
fn chance_root_is_the_empty_marker() {
    let (tree, applied, events) = run(&Game::Chance);
    assert_eq!(tree, StrategyNode::Empty);
    assert!(applied.is_empty());
    assert_eq!(events, 1);
}

#[test]
fn terminal_root_is_the_empty_marker() {
    let (tree, applied, events) = run(&Game::Terminal);
    assert_eq!(tree, StrategyNode::Empty);
    assert!(applied.is_empty());
    assert_eq!(events, 1);
}

#[test]
fn leaf_is_not_entered() {
    let walker = begin();
    let walker = walker.step(Event::Observed(Observation::Decision(data(
        vec![Action::Check, Action::Bet(10)],
        0,
        20,
    ))));
    assert_eq!(walker.command(), Command::ApplyHistory);
    assert_eq!(walker.history(), &vec![0]);
    let walker = walker.step(Event::Applied);
    assert_eq!(walker.command(), Command::Query);
    let walker = walker.step(Event::Observed(Observation::Chance));
    // the chance position is complete at once: the parent is restored
    assert_eq!(walker.command(), Command::ApplyHistory);
    assert_eq!(walker.history(), &Vec::<usize>::new());
    let walker = walker.step(Event::Applied);
    assert_eq!(walker.command(), Command::ApplyHistory);
    assert_eq!(walker.history(), &vec![1]);
}

#[test]
fn decision_without_actions_has_no_children() {
    let lone = data(Vec::new(), 1, 40);
    let (tree, applied, events) = run(&Game::Decision(lone.clone(), Vec::new()));
    assert_eq!(tree, StrategyNode::Decision { data: lone, children: Vec::new() });
    assert!(applied.is_empty());
    assert_eq!(events, 1);
}

#[test]
fn event_that_answers_nothing_is_ignored() {
    let walker = begin();
    assert_eq!(walker.command(), Command::Query);
    let walker = walker.step(Event::Applied);
    assert_eq!(walker.command(), Command::Query);
    assert!(walker.history().is_empty());
    let walker = walker.step(Event::Observed(Observation::Decision(data(
        vec![Action::Check],
        0,
        20,
    ))));
    assert_eq!(walker.command(), Command::ApplyHistory);
    let walker = walker.step(Event::Observed(Observation::Terminal));
    assert_eq!(walker.command(), Command::ApplyHistory);
    assert_eq!(walker.history(), &vec![0]);
    assert!(!walker.is_finished());
    assert_eq!(walker.finish(), None);
}

#[test]
fn finished_walk_stays_finished() {
    let walker = begin().step(Event::Observed(Observation::Terminal));
    assert_eq!(walker.command(), Command::Finish);
    let walker = walker.step(Event::Applied);
    let walker = walker.step(Event::Observed(Observation::Chance));
    assert_eq!(walker.command(), Command::Finish);
    assert_eq!(walker.finish(), Some(StrategyNode::Empty));
}

#[test]
fn restoring_shows_the_parent_again() {
    // what is queried after the restoring application is what stood there
    // before the child was entered
    let game = sample();
    let mut cursor: Vec<usize> = Vec::new();
    let mut walker = begin();
    let mut before_child: Vec<(Vec<usize>, Observation)> = Vec::new();
    loop {
        match walker.command() {
            Command::Query => {
                walker = walker.step(Event::Observed(observe(position(&game, &cursor))));
            }
            Command::ApplyHistory => {
                let target = walker.history().clone();
                if target.len() > cursor.len() {
                    before_child.push((cursor.clone(), observe(position(&game, &cursor))));
                } else {
                    let (parent, seen) = before_child.pop().unwrap();
                    assert_eq!(target, parent);
                    assert_eq!(observe(position(&game, &target)), seen);
                }
                cursor = target;
                walker = walker.step(Event::Applied);
            }
            Command::Finish => break,
        }
    }
    assert!(before_child.is_empty());
    assert!(cursor.is_empty());
}

#[test]
fn children_follow_the_order_of_the_actions() {
    let game = Game::Decision(
        data(vec![Action::Fold, Action::Call, Action::Raise(30)], 1, 30),
        vec![
            Game::Terminal,
            Game::Decision(data(vec![Action::Check], 0, 40), vec![Game::Chance]),
            Game::Decision(data(vec![Action::Fold], 0, 60), vec![Game::Terminal]),
        ],
    );
    let (tree, _, _) = run(&game);
    match tree {
        StrategyNode::Decision { children, .. } => {
            assert_eq!(children[0], StrategyNode::Empty);
            match &children[1] {
                StrategyNode::Decision { data, .. } => assert_eq!(data.pot, Some(40)),
                StrategyNode::Empty => panic!("a decision was expected"),
            }
            match &children[2] {
                StrategyNode::Decision { data, .. } => assert_eq!(data.pot, Some(60)),
                StrategyNode::Empty => panic!("a decision was expected"),
            }
        }
        StrategyNode::Empty => panic!("a decision was expected"),
    }
}

#[test]
fn shape_of_the_tree_is_checked_against_the_hands() {
    let game = sample();
    let (tree, _, _) = run(&game);
    // every strategy of the sample has two entries per action
    assert!(tree.has_shape(2, 2));
    assert!(!tree.has_shape(2, 3));
    assert!(!tree.has_shape(1, 2));
    assert!(StrategyNode::Empty.has_shape(7, 9));
    let odd = StrategyNode::Decision {
        data: NodeData {
            actions: vec![Action::Check],
            strategy: vec![0; 3],
            player: 2,
            pot: None,
            stack: None,
        },
        children: vec![StrategyNode::Empty],
    };
    assert!(!odd.has_shape(3, 3));
}

#[test]
fn walk_begins_only_after_the_solve_is_finished() {
    let solve = SolveRun::new(3, 0);
    assert!(TreeWalker::begin(&solve).is_none());
    let solve = solve.step(SolveEvent::Measured(9));
    assert!(TreeWalker::begin(&solve).is_none());
    let solve = solve.step(SolveEvent::Iterated).step(SolveEvent::Iterated);
    let solve = solve.step(SolveEvent::Iterated).step(SolveEvent::Measured(8));
    assert!(TreeWalker::begin(&solve).is_none());
    let solve = solve.step(SolveEvent::Finalized);
    let walker = TreeWalker::begin(&solve).unwrap();
    assert_eq!(walker.command(), Command::Query);
    assert!(walker.history().is_empty());
    assert!(!walker.is_finished());
}
