use bevy_ecs::entity::Entity;
use bevy_ecs::world::World;
use utility_flow::aggregator::{
    aggregate_children, any_below, fold, highest_score, lowest_score, maximum, minimum, retain_sampled,
    Aggregation, AggregationCtx, Aggregator, IntoAggregator,
};
use utility_flow::buffer::ScoreBuffer;
use utility_flow::mapper::Mapping;
use utility_flow::median::{median, median_middle};
use utility_flow::score::Score;

fn score(value: f32) -> Score {
    Score::new(value.to_bits())
}

fn value(score: Score) -> f32 {
    f32::from_bits(score.get())
}

fn scores(values: &[f32]) -> ScoreBuffer {
    let list: Vec<Score> = values.iter().map(|v| score(*v)).collect();
    ScoreBuffer::from_scores(&list)
}

fn ctx<'w>(world: &'w World, values: &[f32]) -> AggregationCtx<'w> {
    AggregationCtx {
        world,
        aggregation: Aggregation { target: Entity::PLACEHOLDER, scores: scores(values) },
    }
}

fn sum_of(_world: &World, aggregation: Aggregation) -> Score {
    let list = aggregation.scores.as_slice();
    if list.is_empty() {
        return Score::min_score();
    }
    let mut total = Score::min_score();
    for s in list {
        total = score(value(total) + value(*s));
    }
    total
}

fn product_of(_world: &World, aggregation: Aggregation) -> Score {
    let list = aggregation.scores.as_slice();
    if list.is_empty() {
        return Score::min_score();
    }
    let mut total = Score::max_score();
    for s in list {
        total = score(value(total) * value(*s));
    }
    total
}

fn mean(low: Score, high: Score) -> Score {
    score((value(low) + value(high)) / 2.0)
}

fn median_of(values: &[f32]) -> Score {
    let world = World::new();
    median(mean).aggregate(ctx(&world, values))
}

#[test]
fn maximum_aggregator() {
    let mut world = World::new();
    let mut aggregator = maximum();
    aggregator.initialize(&mut world);
    let output = aggregator.aggregate(ctx(&world, &[0.3, 0.6, 0.8]));
    assert_eq!(output, score(0.8));
}

#[test]
fn minimum_aggregator() {
    let mut world = World::new();
    let mut aggregator = minimum();
    aggregator.initialize(&mut world);
    let output = aggregator.aggregate(ctx(&world, &[0.3, 0.15, 0.5]));
    assert_eq!(output, score(0.15));
}

#[test]
fn median_aggregator() {
    let mut world = World::new();
    let mut aggregator = median(mean);
    aggregator.initialize(&mut world);
    let output = aggregator.aggregate(ctx(&world, &[0.3, 0.15, 0.5]));
    assert_eq!(output, score(0.3));
    assert_eq!(aggregator.name(), "median");
}

#[test]
fn average_aggregator() {
    let mut world = World::new();
    let mut aggregator = (|_world: &World, aggregation: Aggregation| {
        let list = aggregation.scores.as_slice();
        let total: f32 = list.iter().map(|s| value(*s)).fold(0.0f32, |a, b| (a + b).min(1.0));
        score(total / list.len() as f32)
    })
    .unless_empty();
    aggregator.initialize(&mut world);
    let output = aggregator.aggregate(ctx(&world, &[0.1, 0.2, 0.3]));
    assert_eq!(output, score(0.2));
    // Without scores the function, which would divide by zero, is not asked.
    assert_eq!(aggregator.aggregate(ctx(&world, &[])), Score::min_score());
}

#[test]
fn median_of_an_even_number_averages_the_middle() {
    assert_eq!(median_of(&[0.1, 0.2, 0.3, 0.4]), score(0.25));
    assert_eq!(median_of(&[0.4, 0.1, 0.3, 0.2]), score(0.25));
}

#[test]
fn median_of_sorted_odd_input() {
    assert_eq!(median_of(&[0.15, 0.3, 0.5]), score(0.3));
}

#[test]
fn median_middle_picks_the_middle_of_the_sorted_scores() {
    let list: Vec<Score> = [0.9f32, 0.1, 0.5, 0.7, 0.3].iter().map(|v| score(*v)).collect();
    assert_eq!(median_middle(&list), Some((score(0.5), score(0.5))));
    let list: Vec<Score> = [0.9f32, 0.1, 0.5, 0.7].iter().map(|v| score(*v)).collect();
    assert_eq!(median_middle(&list), Some((score(0.5), score(0.7))));
    let list: Vec<Score> = vec![score(0.2)];
    assert_eq!(median_middle(&list), Some((score(0.2), score(0.2))));
    assert_eq!(median_middle(&[]), None);
    assert_eq!(median_of(&[]), Score::min_score());
}

#[test]
fn median_leaves_the_scores_as_they_are() {
    let list: Vec<Score> = [0.9f32, 0.1, 0.5].iter().map(|v| score(*v)).collect();
    let _ = median_middle(&list);
    assert_eq!(list, vec![score(0.9), score(0.1), score(0.5)]);
}

#[test]
fn maximum_and_minimum_of_nothing_are_the_minimum() {
    let world = World::new();
    assert_eq!(maximum().aggregate(ctx(&world, &[])), Score::min_score());
    assert_eq!(minimum().aggregate(ctx(&world, &[])), Score::min_score());
    assert_eq!(highest_score(&[]), Score::min_score());
    assert_eq!(lowest_score(&[]), Score::min_score());
}

#[test]
fn highest_and_lowest_of_one_and_of_equal_scores() {
    assert_eq!(highest_score(&[score(0.4)]), score(0.4));
    assert_eq!(lowest_score(&[score(0.4)]), score(0.4));
    assert_eq!(highest_score(&[score(0.4), score(0.4)]), score(0.4));
    assert_eq!(lowest_score(&[score(1.0), score(0.0), score(0.4)]), score(0.0));
    assert_eq!(highest_score(&[score(1.0), score(0.0), score(0.4)]), score(1.0));
}

#[test]
fn system_aggregator() {
    let mut world = World::new();
    let mut aggregator = sum_of.into_aggregator();
    aggregator.initialize(&mut world);
    let output = aggregator.aggregate(ctx(&world, &[0.1, 0.1, 0.1]));
    assert_eq!(output, score(0.3));
}

#[test]
fn sum_and_product_through_functions() {
    let world = World::new();
    let product = product_of.into_aggregator();
    assert_eq!(product.aggregate(ctx(&world, &[0.3, 0.15, 0.5])), score(0.0225));
    let sum = sum_of.into_aggregator();
    assert_eq!(sum.aggregate(ctx(&world, &[0.1, 0.1, 0.1])), score(0.1 + 0.1 + 0.1));
    assert_eq!(sum.aggregate(ctx(&world, &[])), Score::min_score());
    assert_eq!(product.aggregate(ctx(&world, &[])), Score::min_score());
}

#[test]
fn map_aggregator() {
    let mut world = World::new();
    let mut aggregator =
        sum_of.map(|_world: &World, mapping: Mapping<Score>| score(value(mapping.value) * 2.0));
    aggregator.initialize(&mut world);
    let output = aggregator.aggregate(ctx(&world, &[0.1, 0.1, 0.1]));
    assert_eq!(output, score(0.6));
}

#[test]
fn threshold_aggregator() {
    let mut world = World::new();
    let mut aggregator = product_of.threshold(score(0.5));
    aggregator.initialize(&mut world);
    let output = aggregator.aggregate(ctx(&world, &[0.6, 0.7, 0.8]));
    assert_eq!(output, Score::min_score());
}

#[test]
fn threshold_passes_an_output_that_reaches_it() {
    let world = World::new();
    let aggregator = maximum().threshold(score(0.5));
    assert_eq!(aggregator.aggregate(ctx(&world, &[0.6, 0.7, 0.8])), score(0.8));
    let aggregator = maximum().threshold(score(0.8));
    assert_eq!(aggregator.aggregate(ctx(&world, &[0.6, 0.7, 0.8])), score(0.8));
    let aggregator = maximum().threshold(score(0.81));
    assert_eq!(aggregator.aggregate(ctx(&world, &[0.6, 0.7, 0.8])), Score::min_score());
    let aggregator = maximum().threshold(Score::min_score());
    assert_eq!(aggregator.aggregate(ctx(&world, &[0.6])), score(0.6));
    let aggregator = maximum().threshold(Score::max_score());
    assert_eq!(aggregator.aggregate(ctx(&world, &[0.6])), Score::min_score());
}

#[test]
fn input_threshold_aggregator() {
    let mut world = World::new();
    {
        let mut aggregator = sum_of.input_threshold(score(0.5));
        aggregator.initialize(&mut world);
        let output = aggregator.aggregate(ctx(&world, &[0.6, 0.7, 0.8]));
        assert_eq!(output, Score::max_score());
    }
    {
        let mut aggregator = sum_of.input_threshold(score(0.9));
        aggregator.initialize(&mut world);
        let output = aggregator.aggregate(ctx(&world, &[0.6, 0.7, 0.8]));
        assert_eq!(output, Score::min_score());
    }
}

#[test]
fn input_threshold_does_not_call_the_wrapped_aggregator_below_the_threshold() {
    let world = World::new();
    let aggregator = (|_world: &World, _aggregation: Aggregation| -> Score {
        panic!("the wrapped aggregator must not run")
    })
    .input_threshold(score(0.5));
    assert_eq!(aggregator.aggregate(ctx(&world, &[0.6, 0.4])), Score::min_score());
}

#[test]
fn any_below_finds_a_score_below_the_threshold() {
    let list = [score(0.6), score(0.7), score(0.8)];
    assert!(!any_below(&list, score(0.5)));
    assert!(!any_below(&list, score(0.6)));
    assert!(any_below(&list, score(0.61)));
    assert!(any_below(&list, score(0.9)));
    assert!(!any_below(&[], score(1.0)));
}

#[test]
fn retain_sampled_drops_what_could_not_be_sampled() {
    let kept = retain_sampled(&[Some(score(0.3)), None, Some(score(0.2)), None]);
    assert_eq!(kept.as_slice(), &[score(0.3), score(0.2)]);
    assert_eq!(retain_sampled(&[None, None]).len(), 0);
    assert_eq!(retain_sampled(&[]).len(), 0);
}

#[test]
fn aggregate_children_without_children_is_the_minimum() {
    let world = World::new();
    let aggregator = maximum();
    let target = Entity::PLACEHOLDER;
    assert_eq!(aggregate_children(&aggregator, &world, target, None), Score::min_score());
    assert_eq!(
        aggregate_children(&aggregator, &world, target, Some(ScoreBuffer::new())),
        Score::min_score()
    );
    assert_eq!(
        aggregate_children(&aggregator, &world, target, Some(scores(&[0.2, 0.6]))),
        score(0.6)
    );
}

#[test]
fn buffer_holds_scores_in_order() {
    let mut buffer = ScoreBuffer::new();
    assert_eq!(buffer.len(), 0);
    assert_eq!(buffer.as_slice(), &[] as &[Score]);
    buffer.push(score(0.5));
    buffer.push(score(0.1));
    buffer.push(score(0.9));
    assert_eq!(buffer.len(), 3);
    assert_eq!(buffer.as_slice(), &[score(0.5), score(0.1), score(0.9)]);
    let many: Vec<Score> = (0..9).map(|i| score(i as f32 / 10.0)).collect();
    let copy = ScoreBuffer::from_scores(&many);
    assert_eq!(copy.as_slice(), many.as_slice());
}

#[test]
fn names_reflect_the_chain() {
    assert_eq!(maximum().name(), "maximum");
    assert_eq!(minimum().name(), "minimum");
    let half = score(0.5);
    assert_eq!(
        maximum().threshold(half).name(),
        "maximum.threshold(0.5000)"
    );
    assert_eq!(
        minimum().input_threshold(half).threshold(half).name(),
        "minimum.input_threshold(0.5000).threshold(0.5000)"
    );
    let mapped = maximum().map(|_world: &World, mapping: Mapping<Score>| mapping.value);
    assert_eq!(mapped.name(), "maximum.map(system)");
}

#[test]
fn curve_aggregator() {
    let mut world = World::new();
    let mut aggregator = sum_of.curve(|x: Score| Some(score(value(x) * 2.0)));
    aggregator.initialize(&mut world);
    let output = aggregator.aggregate(ctx(&world, &[0.2, 0.3, 0.2]));
    assert_eq!(output, Score::max_score());
}

#[test]
fn curve_input_aggregator() {
    let mut world = World::new();
    let mut aggregator = sum_of.curve_input(|x: Score| Some(score(value(x) * 2.0)));
    aggregator.initialize(&mut world);
    let output = aggregator.aggregate(ctx(&world, &[0.15, 0.1, 0.12]));
    assert_eq!(output, score(0.74));
}

#[test]
fn curve_input_drops_inputs_that_cannot_be_sampled() {
    let world = World::new();
    let half = score(0.5);
    let aggregator = minimum()
        .curve_input(move |x: Score| if x.below(&half) { None } else { Some(x) });
    // Without the dropped inputs the lowest score is 0.6; a replacement by
    // the minimum would make it 0.
    assert_eq!(aggregator.aggregate(ctx(&world, &[0.2, 0.6, 0.1, 0.9])), score(0.6));
    assert_eq!(aggregator.aggregate(ctx(&world, &[0.2, 0.1])), Score::min_score());
    assert_eq!(aggregator.name(), "minimum.curve_input(function)");
}

#[test]
fn curve_that_cannot_be_sampled_gives_the_minimum() {
    let world = World::new();
    let aggregator = maximum().curve(|_x: Score| None);
    assert_eq!(aggregator.aggregate(ctx(&world, &[0.2, 0.6])), Score::min_score());
    assert_eq!(aggregator.name(), "maximum.curve(function)");
}

#[test]
fn named_functions_keep_their_names() {
    let sum = utility_flow::aggregator::SystemAggregator::named("sum", sum_of);
    assert_eq!(sum.name(), "sum");
    assert_eq!(sum_of.into_aggregator().name(), "system");
    let world = World::new();
    assert_eq!(sum.aggregate(ctx(&world, &[0.25, 0.5])), score(0.75));
}

fn add(a: Score, b: Score) -> Score {
    score(value(a) + value(b))
}

fn mul(a: Score, b: Score) -> Score {
    score(value(a) * value(b))
}

#[test]
fn sum_aggregator() {
    let mut world = World::new();
    let mut aggregator = fold("sum", Score::min_score(), add);
    aggregator.initialize(&mut world);
    let output = aggregator.aggregate(ctx(&world, &[0.1, 0.1, 0.1]));
    assert_eq!(output, score(0.3));
    assert_eq!(aggregator.name(), "sum");
}

#[test]
fn product_aggregator() {
    let mut world = World::new();
    let mut aggregator = fold("product", Score::max_score(), mul);
    aggregator.initialize(&mut world);
    let output = aggregator.aggregate(ctx(&world, &[0.3, 0.15, 0.5]));
    assert_eq!(output, score(0.0225));
}

#[test]
fn a_reduction_of_nothing_is_the_minimum() {
    let world = World::new();
    assert_eq!(fold("sum", Score::min_score(), add).aggregate(ctx(&world, &[])), Score::min_score());
    assert_eq!(
        fold("product", Score::max_score(), mul).aggregate(ctx(&world, &[])),
        Score::min_score()
    );
}

#[test]
fn a_reduction_goes_from_the_left() {
    let world = World::new();
    let first = fold("first", Score::max_score(), |total: Score, next: Score| {
        if total == Score::max_score() {
            next
        } else {
            total
        }
    });
    assert_eq!(first.aggregate(ctx(&world, &[0.3, 0.15, 0.5])), score(0.3));
    let last = fold("last", Score::min_score(), |_total: Score, next: Score| next);
    assert_eq!(last.aggregate(ctx(&world, &[0.3, 0.15, 0.5])), score(0.5));
    let clamped = fold("sum", Score::min_score(), add);
    assert_eq!(clamped.aggregate(ctx(&world, &[0.6, 0.7, 0.8])), Score::max_score());
}

#[test]
fn invert_aggregator() {
    let mut world = World::new();
    let mut aggregator = fold("sum", Score::min_score(), add)
        .map(|_world: &World, mapping: Mapping<Score>| score(1.0 - value(mapping.value)));
    aggregator.initialize(&mut world);
    let output = aggregator.aggregate(ctx(&world, &[0.1, 0.1, 0.1]));
    assert_eq!(output, score(0.7));
}

#[test]
fn weight_aggregator() {
    let mut world = World::new();
    let weight = score(0.5);
    let mut aggregator = fold("sum", Score::min_score(), add)
        .map(move |_world: &World, mapping: Mapping<Score>| mul(mapping.value, weight));
    aggregator.initialize(&mut world);
    let output = aggregator.aggregate(ctx(&world, &[0.1, 0.1, 0.1]));
    assert_eq!(output, score(0.15));
}

#[test]
fn geometric_mean_aggregator() {
    let mut world = World::new();
    let mut aggregator = (|_world: &World, aggregation: Aggregation| {
        let list = aggregation.scores.as_slice();
        let product = list.iter().fold(1.0f32, |acc, s| acc * value(*s));
        score(product.powf(1.0 / list.len() as f32))
    })
    .unless_empty();
    aggregator.initialize(&mut world);
    let output = aggregator.aggregate(ctx(&world, &[0.1, 0.2, 0.3]));
    assert_eq!(output, score(0.18171206));
    assert_eq!(aggregator.aggregate(ctx(&world, &[])), Score::min_score());
}

#[test]
fn harmonic_mean_aggregator() {
    let mut world = World::new();
    let mut aggregator = (|_world: &World, aggregation: Aggregation| {
        let list = aggregation.scores.as_slice();
        let sum = list.iter().fold(0.0f32, |acc, s| acc + 1.0 / value(*s));
        score(list.len() as f32 / sum)
    })
    .unless_empty();
    aggregator.initialize(&mut world);
    let output = aggregator.aggregate(ctx(&world, &[0.1, 0.2, 0.3]));
    assert_eq!(output, score(0.16363636));
    assert_eq!(aggregator.aggregate(ctx(&world, &[])), Score::min_score());
}

#[test]
fn thresholds_are_named_by_their_numbers() {
    assert_eq!(maximum().threshold(score(0.5)).name(), "maximum.threshold(0.5000)");
    assert_eq!(maximum().threshold(Score::min_score()).name(), "maximum.threshold(0.0000)");
    assert_eq!(
        maximum().input_threshold(Score::max_score()).name(),
        "maximum.input_threshold(1.0000)"
    );
    assert_eq!(maximum().threshold(score(0.25)).name(), "maximum.threshold(0.2500)");
    assert_eq!(maximum().threshold(score(0.2)).name(), "maximum.threshold(0.2000)");
    assert_eq!(maximum().threshold(score(0.7)).name(), "maximum.threshold(0.7000)");
    assert_eq!(maximum().threshold(score(0.0225)).name(), "maximum.threshold(0.0225)");
    assert_eq!(maximum().threshold(score(0.99996)).name(), "maximum.threshold(1.0000)");
    assert_eq!(maximum().threshold(score(0.00004)).name(), "maximum.threshold(0.0000)");
    assert_eq!(maximum().threshold(score(0.00005001)).name(), "maximum.threshold(0.0001)");
    assert_eq!(maximum().threshold(score(1e-40)).name(), "maximum.threshold(0.0000)");
    assert_eq!(maximum().unless_empty().name(), "maximum");
    assert_eq!(fold("sum", Score::min_score(), add).unless_empty().name(), "sum");
}

#[test]
fn score_text_agrees_with_floating_point_formatting() {
    for i in 0..=1000u32 {
        let x = i as f32 / 1000.0;
        let expected = format!("{:.4}", x);
        assert_eq!(utility_flow::naming::score_text(score(x)), expected);
    }
}

#[test]
fn wrapped_nodes_are_initialized_with_their_wrapper() {
    let mut world = World::new();
    let mut aggregator = maximum()
        .unless_empty()
        .input_threshold(score(0.5))
        .threshold(score(0.5))
        .curve(|x: Score| Some(x))
        .curve_input(|x: Score| Some(x))
        .map(|_world: &World, mapping: Mapping<Score>| mapping.value);
    aggregator.initialize(&mut world);
    assert_eq!(aggregator.aggregate(ctx(&world, &[0.6, 0.7])), score(0.7));
}
