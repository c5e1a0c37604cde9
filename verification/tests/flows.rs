use std::sync::atomic::{AtomicUsize, Ordering};
use std::sync::Arc;

use bevy_ecs::component::{Component, StorageType};
use bevy_ecs::entity::Entity;
use bevy_ecs::system::Resource;
use bevy_ecs::world::World;
use bevy_hierarchy::{BuildChildren, Children, Parent};
use utility_flow::aggregator::{fold, maximum, Aggregation, Aggregator, IntoAggregator};
use utility_flow::buffer::ScoreBuffer;
use utility_flow::mapper::Mapping;
use utility_flow::naming::NodeName;
use utility_flow::command::{run_entity_flows, RunEntityFlow, RunEntityFlowOutcome, RunFlow};
use utility_flow::component::{Actions, ComputedScores, EntityFlow};
use utility_flow::evaluator::{constant, Evaluation, EvaluationCtx, Evaluator, IntoEvaluator};
use utility_flow::flow::{
    BoxedEvaluator, Flow, FlowNode, FlowNodeConfig, FlowNodeConfigs, Flows, IntoFlowNodeConfig,
    IntoFlowNodeConfigs,
};
use utility_flow::label::{InternedActionLabel, InternedFlowLabel, InternedScoreLabel};
use utility_flow::schedule::{ScoringBuildError, ScoringExecutable, ScoringGraph, ScoringNodeId};
use utility_flow::score::Score;
use utility_flow::selector::{IntoSelector, Selection, SelectionCtx, Selector};

const TEST_FLOW: InternedFlowLabel = InternedFlowLabel(1);
const OTHER_FLOW: InternedFlowLabel = InternedFlowLabel(2);
const HEALTH_SCORE: InternedScoreLabel = InternedScoreLabel(10);
const TOTAL_HEALTH_SCORE: InternedScoreLabel = InternedScoreLabel(11);
const FUEL_SCORE: InternedScoreLabel = InternedScoreLabel(12);
const TIME_SCORE: InternedScoreLabel = InternedScoreLabel(13);

fn score(value: f32) -> Score {
    Score::new(value.to_bits())
}

fn value(score: Score) -> f32 {
    f32::from_bits(score.get())
}

struct Health(i32);

impl Component for Health {
    const STORAGE_TYPE: StorageType = StorageType::Table;
}

struct HealthEvaluator;

impl Evaluator for HealthEvaluator {
    fn score_of(&self, _world: &World, _target: Entity) -> Score {
        unreachable!("names the outcome in contracts; nothing calls it")
    }

    fn spec_name(&self) -> NodeName {
        unreachable!("names the name in contracts; nothing calls it")
    }

    fn is_initialized(&self) -> bool {
        unreachable!("speaks of the state in contracts; nothing calls it")
    }

    fn name(&self) -> String {
        "target(Health)".to_string()
    }

    fn initialize(&mut self, _world: &mut World) {}

    fn evaluate(&self, ctx: EvaluationCtx) -> Score {
        match ctx.world.get::<Health>(ctx.evaluation.target) {
            Some(health) => score(health.0 as f32 / 100.0),
            None => Score::min_score(),
        }
    }
}

fn sum_of(_world: &World, aggregation: Aggregation) -> Score {
    let list = aggregation.scores.as_slice();
    if list.is_empty() {
        return Score::min_score();
    }
    let mut total = Score::min_score();
    for s in list {
        total = score(value(total) + value(*s));
    }
    total
}

fn difference_of(_world: &World, aggregation: Aggregation) -> Score {
    let list = aggregation.scores.as_slice();
    score(value(list[0]) - value(list[1]))
}

#[test]
fn evaluator_test() {
    let mut world = World::new();
    let mut flows = Flows::new();
    flows.add_nodes(TEST_FLOW, HealthEvaluator.label(HEALTH_SCORE));

    let npc = world.spawn(Health(50)).id();
    let scores = flows.try_run_flow(&mut world, TEST_FLOW, npc).unwrap();
    assert_eq!(scores.get(&HEALTH_SCORE.0), Some(&score(0.5)));
    assert_eq!(scores.len(), 1);
}

#[test]
fn aggregator_test() {
    let mut world = World::new();
    let mut flows = Flows::new();
    flows.add_nodes(
        TEST_FLOW,
        sum_of.with_children((HealthEvaluator, constant(score(0.25)))).label(HEALTH_SCORE),
    );

    let npc = world.spawn(Health(50)).id();
    let scores = flows.try_run_flow(&mut world, TEST_FLOW, npc).unwrap();
    assert_eq!(scores.get(&HEALTH_SCORE.0), Some(&score(0.75)));
}

struct Fuel(i32);

impl Component for Fuel {
    const STORAGE_TYPE: StorageType = StorageType::Table;
}

struct GameTime {
    elapsed: f32,
    period: f32,
}

impl Resource for GameTime {}

fn health_of_target(world: &World, evaluation: Evaluation) -> Score {
    match world.get::<Health>(evaluation.target) {
        Some(health) => score(health.0 as f32 / 100.0),
        None => Score::min_score(),
    }
}

fn fuel_of_parent(world: &World, evaluation: Evaluation) -> Score {
    let Some(parent) = world.get::<Parent>(evaluation.target) else {
        return Score::min_score();
    };
    match world.get::<Fuel>(parent.get()) {
        Some(fuel) => score(fuel.0 as f32 / 100.0),
        None => Score::min_score(),
    }
}

fn game_time(world: &World, _evaluation: Evaluation) -> Score {
    match world.get_resource::<GameTime>() {
        Some(time) => score(time.elapsed / time.period),
        None => Score::min_score(),
    }
}

fn health_of_children(world: &World, target: Entity) -> Option<ScoreBuffer> {
    let children = world.get::<Children>(target)?;
    let mut buffer = ScoreBuffer::new();
    for child in children.iter() {
        if let Some(health) = world.get::<Health>(*child) {
            buffer.push(score(health.0 as f32 / 100.0));
        }
    }
    Some(buffer)
}

fn sum() -> impl Aggregator {
    fold("sum", Score::min_score(), |a: Score, b: Score| score(value(a) + value(b)))
}

#[test]
fn flow_test() {
    let mut world = World::new();
    world.insert_resource(GameTime { elapsed: 900.0, period: 3600.0 });
    let mut flows = Flows::new();

    flows.add_nodes(
        TEST_FLOW,
        (
            sum()
                .threshold(score(0.2))
                .curve(|x: Score| Some(score(value(x).powf(3.0))))
                .with_children((
                    sum().threshold(score(0.2)).score_children(health_of_children),
                    health_of_target.label(HEALTH_SCORE),
                ))
                .label(TOTAL_HEALTH_SCORE),
            fuel_of_parent
                .map(|_world: &World, mapping: Mapping<Score>| score(value(mapping.value) * 0.25))
                .label(FUEL_SCORE),
            game_time.label(TIME_SCORE),
            // This has neither a label nor a parent node, so it is not added.
            constant(score(0.5))
                .map(|_world: &World, mapping: Mapping<Score>| score(value(mapping.value) * 0.25)),
        ),
    );

    let gun = world.spawn(Health(50)).id();
    let npc = world.spawn(Health(100)).add_child(gun).id();
    let _car = world.spawn(Fuel(50)).add_child(npc).id();

    let scores = flows.try_run_flow(&mut world, TEST_FLOW, npc).unwrap();
    assert_eq!(scores.get(&HEALTH_SCORE.0), Some(&score(1.0)));
    // (0.5 + 1.0, clamped to 1.0) cubed
    assert_eq!(scores.get(&TOTAL_HEALTH_SCORE.0), Some(&score(1.0)));
    assert_eq!(scores.get(&FUEL_SCORE.0), Some(&score(0.125)));
    assert_eq!(scores.get(&TIME_SCORE.0), Some(&score(0.25)));
    assert_eq!(scores.len(), 4);
    let flow = flows.remove(TEST_FLOW).unwrap();
    assert_eq!(flow.graph.evaluators.len(), 4);
    assert_eq!(flow.graph.aggregators.len(), 1);
}

#[test]
fn a_node_without_label_and_parent_is_left_out_with_its_children() {
    let mut flow = Flow::new(TEST_FLOW);
    flow.add_nodes(
        (
            maximum().with_children(constant(score(0.5)).label(HEALTH_SCORE)),
            constant(score(0.25)),
        )
            .into_configs(),
    );
    assert_eq!(flow.graph.evaluators.len(), 0);
    assert_eq!(flow.graph.aggregators.len(), 0);
    assert_eq!(flow.graph.dependency_toposort.len(), 0);
    let mut world = World::new();
    let scores = flow.run(&mut world, Entity::PLACEHOLDER);
    assert!(scores.is_empty());
}

#[test]
fn the_first_binding_of_a_label_is_kept() {
    let mut world = World::new();
    let mut flow = Flow::new(TEST_FLOW);
    flow.add_nodes(
        (
            constant(score(0.25)).label(HEALTH_SCORE),
            maximum()
                .with_children((
                    constant(score(0.75)).label(HEALTH_SCORE),
                    constant(score(0.5)),
                ))
                .label(TOTAL_HEALTH_SCORE),
        )
            .into_configs(),
    );
    assert_eq!(flow.graph.evaluators.len(), 3);
    assert_eq!(flow.graph.labels.get(&HEALTH_SCORE.0), Some(&ScoringNodeId::Evaluator(0)));
    let scores = flow.run(&mut world, Entity::PLACEHOLDER);
    // The first binding stays; the second node still runs and feeds its parent.
    assert_eq!(scores.get(&HEALTH_SCORE.0), Some(&score(0.25)));
    assert_eq!(scores.get(&TOTAL_HEALTH_SCORE.0), Some(&score(0.75)));
    assert_eq!(scores.len(), 2);

    flow.add_nodes(constant(score(1.0)).label(HEALTH_SCORE).into_configs());
    let scores = flow.run(&mut world, Entity::PLACEHOLDER);
    assert_eq!(scores.get(&HEALTH_SCORE.0), Some(&score(0.25)));
    assert_eq!(flow.graph.evaluators.len(), 4);
}

#[test]
fn add_label_binds_a_free_label_only() {
    let mut flow = Flow::new(TEST_FLOW);
    let (first, _) = flow.graph.add_node(
        None,
        FlowNode::Evaluator { evaluator: BoxedEvaluator { node: Box::new(constant(score(0.1))) } },
    );
    let (second, _) = flow.graph.add_node(
        None,
        FlowNode::Evaluator { evaluator: BoxedEvaluator { node: Box::new(constant(score(0.2))) } },
    );
    assert_eq!(first, ScoringNodeId::Evaluator(0));
    assert_eq!(second, ScoringNodeId::Evaluator(1));
    assert!(flow.graph.add_label(HEALTH_SCORE, first));
    assert!(!flow.graph.add_label(HEALTH_SCORE, second));
    assert!(flow.graph.add_label(FUEL_SCORE, second));
    assert_eq!(flow.graph.labels.get(&HEALTH_SCORE.0), Some(&first));
    assert_eq!(flow.graph.labels.get(&FUEL_SCORE.0), Some(&second));
    assert_eq!(flow.graph.evaluator_labels, vec![Some(HEALTH_SCORE.0), Some(FUEL_SCORE.0)]);
}

#[test]
fn children_scores_come_in_the_order_of_registration() {
    let mut world = World::new();
    let mut flow = Flow::new(TEST_FLOW);
    flow.add_nodes(
        difference_of
            .with_children((constant(score(0.75)), constant(score(0.25))))
            .label(HEALTH_SCORE)
            .into_configs(),
    );
    let scores = flow.run(&mut world, Entity::PLACEHOLDER);
    assert_eq!(scores.get(&HEALTH_SCORE.0), Some(&score(0.5)));
}

fn position(order: &[ScoringNodeId], node: ScoringNodeId) -> usize {
    order.iter().position(|n| *n == node).unwrap()
}

#[test]
fn every_child_runs_before_its_parent() {
    let mut world = World::new();
    let mut flow = Flow::new(TEST_FLOW);
    let leaf = |v: f32| constant(score(v));
    flow.add_nodes(
        (
            sum_of
                .with_children((
                    leaf(0.125),
                    maximum().with_children((
                        leaf(0.25),
                        sum_of.with_children((leaf(0.0625), leaf(0.0625), leaf(0.125))),
                        leaf(0.125),
                    )),
                    sum_of.with_children((leaf(0.125), leaf(0.125))),
                ))
                .label(TOTAL_HEALTH_SCORE),
            maximum().with_children((leaf(0.3), leaf(0.2))).label(FUEL_SCORE),
        )
            .into_configs(),
    );
    let graph = &flow.graph;
    assert_eq!(graph.aggregators.len(), 5);
    assert_eq!(graph.evaluators.len(), 10);
    assert_eq!(graph.dependency_toposort.len(), 15);
    for (parent, children) in graph.children.iter().enumerate() {
        for child in children {
            assert!(
                position(&graph.dependency_toposort, *child)
                    < position(&graph.dependency_toposort, ScoringNodeId::Aggregator(parent))
            );
        }
    }
    assert_eq!(
        graph.children[0],
        vec![
            ScoringNodeId::Evaluator(0),
            ScoringNodeId::Aggregator(1),
            ScoringNodeId::Aggregator(3)
        ]
    );
    let scores = flow.run(&mut world, Entity::PLACEHOLDER);
    // 0.125 + max(0.25, 0.25, 0.125) + 0.25
    assert_eq!(scores.get(&TOTAL_HEALTH_SCORE.0), Some(&score(0.625)));
    assert_eq!(scores.get(&FUEL_SCORE.0), Some(&score(0.3)));
}

struct Counting {
    initialized: Arc<AtomicUsize>,
}

impl Evaluator for Counting {
    fn score_of(&self, _world: &World, _target: Entity) -> Score {
        unreachable!("names the outcome in contracts; nothing calls it")
    }

    fn spec_name(&self) -> NodeName {
        unreachable!("names the name in contracts; nothing calls it")
    }

    fn is_initialized(&self) -> bool {
        unreachable!("speaks of the state in contracts; nothing calls it")
    }

    fn name(&self) -> String {
        "counting".to_string()
    }

    fn initialize(&mut self, _world: &mut World) {
        self.initialized.fetch_add(1, Ordering::SeqCst);
    }

    fn evaluate(&self, _ctx: EvaluationCtx) -> Score {
        score(self.initialized.load(Ordering::SeqCst) as f32 / 4.0)
    }
}

#[test]
fn initialize_visits_each_node_once() {
    let mut world = World::new();
    let counter = Arc::new(AtomicUsize::new(0));
    let mut flow = Flow::new(TEST_FLOW);
    flow.add_nodes(Counting { initialized: counter.clone() }.label(HEALTH_SCORE).into_configs());
    assert_eq!(flow.graph.uninitialized, vec![ScoringNodeId::Evaluator(0)]);
    flow.initialize(&mut world);
    assert_eq!(counter.load(Ordering::SeqCst), 1);
    assert!(flow.graph.uninitialized.is_empty());
    flow.initialize(&mut world);
    flow.initialize(&mut world);
    assert_eq!(counter.load(Ordering::SeqCst), 1);
    let scores = flow.run_readonly(&world, Entity::PLACEHOLDER);
    assert_eq!(scores.get(&HEALTH_SCORE.0), Some(&score(0.25)));
    let scores = flow.run(&mut world, Entity::PLACEHOLDER);
    assert_eq!(scores.get(&HEALTH_SCORE.0), Some(&score(0.25)));
    assert_eq!(counter.load(Ordering::SeqCst), 1);

    flow.add_nodes(Counting { initialized: counter.clone() }.label(FUEL_SCORE).into_configs());
    assert_eq!(flow.graph.uninitialized, vec![ScoringNodeId::Evaluator(1)]);
    let scores = flow.run(&mut world, Entity::PLACEHOLDER);
    assert_eq!(counter.load(Ordering::SeqCst), 2);
    assert_eq!(scores.get(&FUEL_SCORE.0), Some(&score(0.5)));
}

#[test]
fn registry_keeps_one_flow_per_label() {
    let mut flows = Flows::new();
    assert!(flows.insert(Flow::new(TEST_FLOW)).is_none());
    assert!(flows.insert(Flow::new(OTHER_FLOW)).is_none());
    let mut replacement = Flow::new(TEST_FLOW);
    replacement.add_nodes(constant(score(0.5)).label(HEALTH_SCORE).into_configs());
    let replaced = flows.insert(replacement).unwrap();
    assert_eq!(replaced.label, TEST_FLOW);
    assert_eq!(replaced.graph.evaluators.len(), 0);
    assert_eq!(flows.inner.len(), 2);
    let removed = flows.remove(TEST_FLOW).unwrap();
    assert_eq!(removed.graph.evaluators.len(), 1);
    assert!(flows.remove(TEST_FLOW).is_none());
    assert_eq!(flows.inner.len(), 1);
}

#[test]
fn running_a_missing_flow_is_an_error() {
    let mut world = World::new();
    let mut flows = Flows::new();
    flows.add_nodes(TEST_FLOW, constant(score(0.5)).label(HEALTH_SCORE).into_configs());
    let error = flows.try_run_flow(&mut world, OTHER_FLOW, Entity::PLACEHOLDER).unwrap_err();
    assert_eq!(error.0, OTHER_FLOW);
    assert_eq!(flows.inner.len(), 1);
    let scores = flows.try_run_flow(&mut world, TEST_FLOW, Entity::PLACEHOLDER).unwrap();
    assert_eq!(scores.get(&HEALTH_SCORE.0), Some(&score(0.5)));
    assert!(flows.inner.contains_key(&TEST_FLOW.0));
}

#[test]
fn a_missing_flow_does_not_stop_the_batch() {
    let mut world = World::new();
    let mut flows = Flows::new();
    flows.add_nodes(TEST_FLOW, HealthEvaluator.label(HEALTH_SCORE).into_configs());
    let a = world.spawn(Health(25)).id();
    let b = world.spawn(Health(50)).id();
    let c = world.spawn(Health(75)).id();
    let results =
        run_entity_flows(&mut flows, &mut world, &vec![(a, TEST_FLOW), (b, OTHER_FLOW), (c, TEST_FLOW)]);
    assert_eq!(results.len(), 3);
    assert_eq!(results[0].as_ref().unwrap().get(&HEALTH_SCORE.0), Some(&score(0.25)));
    assert!(results[1].is_none());
    assert_eq!(results[2].as_ref().unwrap().get(&HEALTH_SCORE.0), Some(&score(0.75)));
}

#[test]
fn commands_run_flows() {
    let mut world = World::new();
    let mut flows = Flows::new();
    flows.add_nodes(TEST_FLOW, HealthEvaluator.label(HEALTH_SCORE).into_configs());
    let npc = world.spawn(Health(50)).id();

    let scores = RunFlow::new(TEST_FLOW).apply(&mut flows, &mut world, npc).unwrap();
    assert_eq!(scores.get(&HEALTH_SCORE.0), Some(&score(0.5)));
    let error = RunFlow::new(OTHER_FLOW).apply(&mut flows, &mut world, npc).unwrap_err();
    assert_eq!(error.0, OTHER_FLOW);

    let flow = EntityFlow::new(TEST_FLOW);
    match RunEntityFlow.apply(&mut flows, &mut world, npc, Some(flow.0)) {
        RunEntityFlowOutcome::Scored(scores) => {
            assert_eq!(scores.get(&HEALTH_SCORE.0), Some(&score(0.5)))
        }
        _ => panic!("the flow exists"),
    }
    assert!(matches!(
        RunEntityFlow.apply(&mut flows, &mut world, npc, None),
        RunEntityFlowOutcome::NoFlow
    ));
    match RunEntityFlow.apply(&mut flows, &mut world, npc, Some(OTHER_FLOW)) {
        RunEntityFlowOutcome::Missing(error) => assert_eq!(error.0, OTHER_FLOW),
        _ => panic!("the flow does not exist"),
    }
}

#[test]
fn computed_scores_and_actions() {
    let mut scores = ComputedScores::new();
    assert_eq!(scores.get(HEALTH_SCORE), None);
    assert_eq!(scores.insert(HEALTH_SCORE, score(0.5)), None);
    assert_eq!(scores.insert(HEALTH_SCORE, score(0.75)), Some(score(0.5)));
    assert_eq!(scores.get(HEALTH_SCORE), Some(score(0.75)));
    assert_eq!(scores.get(FUEL_SCORE), None);
    assert_eq!(ComputedScores::default().get(HEALTH_SCORE), None);

    let idle = InternedActionLabel(100);
    let heal = InternedActionLabel(101);
    let refuel = InternedActionLabel(102);
    let actions = Actions::new(idle).with(HEALTH_SCORE, heal).with(FUEL_SCORE, refuel);
    assert_eq!(actions.current(), idle);
    assert_eq!(actions.default(), idle);
    assert_eq!(actions.action(HEALTH_SCORE), Some(heal));
    assert_eq!(actions.action(FUEL_SCORE), Some(refuel));
    assert_eq!(actions.action(TIME_SCORE), None);
    let actions = actions.with(HEALTH_SCORE, refuel);
    assert_eq!(actions.action(HEALTH_SCORE), Some(refuel));
}

#[test]
fn a_function_is_a_selector() {
    let mut world = World::new();
    let mut scores = ComputedScores::new();
    scores.insert(HEALTH_SCORE, score(0.75));
    let heal = InternedActionLabel(101);
    let actions = Actions::new(InternedActionLabel(100)).with(HEALTH_SCORE, heal);
    let mut selector = (|_world: &World,
                         _target: Entity,
                         scores: &ComputedScores,
                         actions: &Actions|
     -> Option<InternedActionLabel> {
        match scores.get(HEALTH_SCORE) {
            Some(s) if !s.below(&Score::new(0.5f32.to_bits())) => actions.action(HEALTH_SCORE),
            _ => None,
        }
    })
    .into_selector();
    selector.initialize(&mut world);
    let selected = selector.select(SelectionCtx {
        world: &world,
        selection: Selection { target: Entity::PLACEHOLDER, scores: &scores, actions: &actions },
    });
    assert_eq!(selected, Some(heal));
    assert_eq!(selector.name(), "system");
}

#[test]
fn configs_convert_in_order() {
    let single = constant(score(0.5)).into_config();
    assert!(single.label.is_none());
    assert_eq!(single.node.kind(), "Evaluator");
    assert_eq!(single.node.name(), "constant");
    let labeled = FlowNodeConfig::evaluator(constant(score(0.5))).label(HEALTH_SCORE);
    assert_eq!(labeled.label, Some(HEALTH_SCORE));
    let same = labeled.into_config();
    assert_eq!(same.label, Some(HEALTH_SCORE));

    let aggregate = FlowNodeConfig::aggregator(
        maximum(),
        (constant(score(0.1)).label(FUEL_SCORE), constant(score(0.2)), maximum().with_children(constant(score(0.3)))),
    );
    assert_eq!(aggregate.node.kind(), "Aggregator");
    assert_eq!(aggregate.node.name(), "maximum");
    match aggregate.node {
        FlowNode::Aggregator { children, .. } => {
            assert_eq!(children.0.len(), 3);
            assert_eq!(children.0[0].label, Some(FUEL_SCORE));
            assert_eq!(children.0[1].label, None);
            assert_eq!(children.0[2].node.kind(), "Aggregator");
        }
        FlowNode::Evaluator { .. } => panic!("an aggregator was configured"),
    }
    let list = FlowNodeConfigs(vec![constant(score(0.1)).into_config()]).into_configs();
    assert_eq!(list.0.len(), 1);
}

#[test]
fn node_identifiers_and_keys() {
    assert_eq!(ScoringNodeId::Evaluator(3).to_key(), (false, 3));
    assert_eq!(ScoringNodeId::Aggregator(5).to_key(), (true, 5));
    assert_eq!(ScoringNodeId::from_key((false, 3)), ScoringNodeId::Evaluator(3));
    assert_eq!(ScoringNodeId::from_key((true, 5)), ScoringNodeId::Aggregator(5));
    let mut graph = ScoringGraph::default();
    assert!(!graph.changed());
    graph.set_changed(true);
    assert!(graph.changed());
    let _ = ScoringExecutable::default();
}

#[test]
fn operators_forward_initialize_to_the_wrapped_node() {
    let mut world = World::new();
    let counter = Arc::new(AtomicUsize::new(0));
    let mut evaluator = Counting { initialized: counter.clone() }
        .threshold(Score::min_score())
        .curve(|x: Score| Some(x))
        .map(|_world: &World, mapping: Mapping<Score>| mapping.value);
    assert_eq!(counter.load(Ordering::SeqCst), 0);
    evaluator.initialize(&mut world);
    assert_eq!(counter.load(Ordering::SeqCst), 1);
    assert_eq!(
        evaluator.evaluate(EvaluationCtx {
            world: &world,
            evaluation: Evaluation { target: Entity::PLACEHOLDER },
        }),
        score(0.25)
    );
    assert_eq!(evaluator.name(), "counting.threshold(0.0000).curve(function).map(system)");
}

#[test]
fn building_a_graph_has_no_error() {
    let built: Result<ScoringNodeId, ScoringBuildError> = Ok(ScoringNodeId::Evaluator(0));
    match built {
        Ok(node) => assert_eq!(node, ScoringNodeId::Evaluator(0)),
        Err(ScoringBuildError::Never(never)) => match never {},
    }
}

#[test]
fn a_batch_over_initialized_flows_leaves_them_as_they_are() {
    let mut world = World::new();
    let counter = Arc::new(AtomicUsize::new(0));
    let mut flows = Flows::new();
    flows.add_nodes(TEST_FLOW, Counting { initialized: counter.clone() }.label(HEALTH_SCORE));
    let a = world.spawn_empty().id();
    let b = world.spawn_empty().id();
    let first = run_entity_flows(&mut flows, &mut world, &vec![(a, TEST_FLOW), (b, TEST_FLOW)]);
    assert_eq!(counter.load(Ordering::SeqCst), 1);
    let second = run_entity_flows(&mut flows, &mut world, &vec![(a, TEST_FLOW), (b, TEST_FLOW)]);
    assert_eq!(counter.load(Ordering::SeqCst), 1);
    assert_eq!(first, second);
    assert_eq!(second[0].as_ref().unwrap().get(&HEALTH_SCORE.0), Some(&score(0.25)));
    let flow = flows.remove(TEST_FLOW).unwrap();
    assert!(flow.graph.uninitialized.is_empty());
}
