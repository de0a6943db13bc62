use load_painter::mapping::MappingPolicy;
use load_painter::pacing::{pause_after, PlanError, RunPlan, Span, NANOS_PER_SEC};

fn span(secs: u64, nanos: u32) -> Span {
    Span::new(secs, nanos).unwrap()
}

#[test]
fn span_refuses_a_second_or_more_of_nanoseconds() {
    assert!(Span::new(0, 999_999_999).is_some());
    assert!(Span::new(0, 1_000_000_000).is_none());
    assert!(Span::new(5, u32::MAX).is_none());
    assert_eq!(NANOS_PER_SEC, 1_000_000_000);
}

#[test]
fn span_gives_back_its_parts() {
    let s = span(12, 345);
    assert_eq!(s.secs(), 12);
    assert_eq!(s.subsec_nanos(), 345);
    let whole = Span::from_secs(30);
    assert_eq!(whole.secs(), 30);
    assert_eq!(whole.subsec_nanos(), 0);
    assert_eq!(whole, span(30, 0));
    let far = span(u64::MAX, 999_999_999);
    assert_eq!(far.secs(), u64::MAX);
    assert_eq!(far.subsec_nanos(), 999_999_999);
}

#[test]
fn pause_is_what_is_left_of_the_pass() {
    assert_eq!(pause_after(span(30, 0), span(12, 0)), Some(span(18, 0)));
    assert_eq!(pause_after(span(30, 0), span(0, 0)), Some(span(30, 0)));
    assert_eq!(pause_after(span(30, 0), span(29, 999_999_999)), Some(span(0, 1)));
    assert_eq!(pause_after(span(30, 0), span(12, 250_000_000)), Some(span(17, 750_000_000)));
    assert_eq!(pause_after(span(30, 500), span(12, 100)), Some(span(18, 400)));
    assert_eq!(pause_after(span(1, 100), span(0, 200)), Some(span(0, 999_999_900)));
}

#[test]
fn no_pause_when_the_work_filled_the_pass_or_overran() {
    assert_eq!(pause_after(span(30, 0), span(30, 0)), None);
    assert_eq!(pause_after(span(30, 0), span(30, 1)), None);
    assert_eq!(pause_after(span(30, 0), span(31, 0)), None);
    assert_eq!(pause_after(span(30, 0), span(u64::MAX, 999_999_999)), None);
    assert_eq!(pause_after(span(0, 0), span(0, 0)), None);
}

#[test]
fn pause_at_the_ends_of_the_range() {
    let longest = span(u64::MAX, 999_999_999);
    assert_eq!(pause_after(longest, span(0, 0)), Some(longest));
    assert_eq!(pause_after(longest, span(0, 1)), Some(span(u64::MAX, 999_999_998)));
    assert_eq!(pause_after(span(u64::MAX, 0), span(0, 1)), Some(span(u64::MAX - 1, 999_999_999)));
}

#[test]
fn work_and_pause_fill_the_pass_exactly_when_there_is_no_overrun() {
    let nominal = span(5, 0);
    let works = [span(0, 0), span(1, 500_000_000), span(4, 999_999_999), span(5, 0)];
    let mut total: u128 = 0;
    for work in works {
        let pause = pause_after(nominal, work);
        let paused = pause.map(|p| p.secs() as u128 * 1_000_000_000 + p.subsec_nanos() as u128);
        let worked = work.secs() as u128 * 1_000_000_000 + work.subsec_nanos() as u128;
        assert_eq!(worked + paused.unwrap_or(0), 5_000_000_000);
        total += worked + paused.unwrap_or(0);
    }
    assert_eq!(total, 4 * 5_000_000_000);
}

#[test]
fn an_overrun_is_not_made_up_for_by_the_next_pass() {
    let nominal = span(5, 0);
    assert_eq!(pause_after(nominal, span(8, 0)), None);
    assert_eq!(pause_after(nominal, span(1, 0)), Some(span(4, 0)));
}

#[test]
fn plan_with_no_passes_is_refused() {
    let made = RunPlan::new(60, 0, 1, MappingPolicy::Direct);
    assert_eq!(made, Err(PlanError::NoPasses));
    assert_eq!(RunPlan::new(0, 0, 1, MappingPolicy::Direct), Err(PlanError::NoPasses));
}

#[test]
fn plan_with_more_passes_than_seconds_is_refused() {
    assert_eq!(
        RunPlan::new(60, 61, 1, MappingPolicy::InvertedIntensity),
        Err(PlanError::PassTooShort)
    );
    assert_eq!(RunPlan::new(0, 1, 1, MappingPolicy::Direct), Err(PlanError::PassTooShort));
    assert_eq!(RunPlan::new(60, u64::MAX, 1, MappingPolicy::Direct), Err(PlanError::PassTooShort));
}

#[test]
fn plan_keeps_what_it_was_made_with() {
    let plan = RunPlan::new(60, 12, 3, MappingPolicy::Direct).unwrap();
    assert_eq!(plan.interval_secs(), 60);
    assert_eq!(plan.passes_per_interval(), 12);
    assert_eq!(plan.rows_per_table(), 3);
    assert_eq!(plan.policy(), MappingPolicy::Direct);
    assert!(RunPlan::new(60, 60, 0, MappingPolicy::Direct).is_ok());
    assert!(RunPlan::new(1, 1, 1, MappingPolicy::Direct).is_ok());
}

#[test]
fn standard_plan_is_a_minute_in_two_passes_over_one_row() {
    let plan = RunPlan::standard();
    assert_eq!(plan.interval_secs(), 60);
    assert_eq!(plan.passes_per_interval(), 2);
    assert_eq!(plan.rows_per_table(), 1);
    assert_eq!(plan.policy(), MappingPolicy::InvertedIntensity);
    assert_eq!(plan.pass_length(), span(30, 0));
    assert_eq!(Ok(plan), RunPlan::new(60, 2, 1, MappingPolicy::InvertedIntensity));
}

#[test]
fn pass_length_is_the_interval_divided_rounding_down() {
    let length = |interval, passes| {
        RunPlan::new(interval, passes, 1, MappingPolicy::Direct).unwrap().pass_length()
    };
    assert_eq!(length(60, 12), span(5, 0));
    assert_eq!(length(60, 7), span(8, 0));
    assert_eq!(length(60, 60), span(1, 0));
    assert_eq!(length(60, 31), span(1, 0));
    assert_eq!(length(60, 1), span(60, 0));
    assert_eq!(length(u64::MAX, 1), span(u64::MAX, 0));
}

#[test]
fn plan_errors_describe_themselves() {
    assert_eq!(PlanError::NoPasses.describe(), "an interval must be cut into at least one pass");
    assert_eq!(
        PlanError::PassTooShort.describe(),
        "an interval cannot be cut into more passes than it has seconds"
    );
}

#[test]
fn passes_of_an_interval_fill_it_when_their_number_divides_it() {
    for passes in [1u64, 2, 3, 4, 5, 6, 10, 12, 15, 20, 30, 60] {
        let plan = RunPlan::new(60, passes, 1, MappingPolicy::Direct).unwrap();
        assert_eq!(plan.pass_length().secs() * passes, 60);
    }
    let uneven = RunPlan::new(60, 7, 1, MappingPolicy::Direct).unwrap();
    assert_eq!(uneven.pass_length().secs() * 7, 56);
}

#[test]
fn default_plan_is_the_standard_plan() {
    assert_eq!(RunPlan::default(), RunPlan::standard());
    assert_eq!(RunPlan::default().pass_length().secs(), 30);
}

#[test]
fn a_plan_with_nothing_chosen_is_the_standard_plan() {
    assert_eq!(RunPlan::customized(None, None, None, None), Ok(RunPlan::standard()));
}

#[test]
fn a_customized_plan_takes_what_was_chosen_and_the_rest_from_the_standard() {
    let direct = RunPlan::customized(None, None, None, Some(MappingPolicy::Direct)).unwrap();
    assert_eq!(direct, RunPlan::new(60, 2, 1, MappingPolicy::Direct).unwrap());
    let fine = RunPlan::customized(None, Some(12), Some(3), None).unwrap();
    assert_eq!(fine, RunPlan::new(60, 12, 3, MappingPolicy::InvertedIntensity).unwrap());
    assert_eq!(fine.pass_length(), span(5, 0));
    let long = RunPlan::customized(Some(600), None, None, None).unwrap();
    assert_eq!(long.pass_length(), span(300, 0));
    let all = RunPlan::customized(Some(10), Some(5), Some(0), Some(MappingPolicy::Direct));
    assert_eq!(all, RunPlan::new(10, 5, 0, MappingPolicy::Direct));
}

#[test]
fn a_customized_plan_is_refused_like_any_other() {
    assert_eq!(RunPlan::customized(None, Some(0), None, None), Err(PlanError::NoPasses));
    assert_eq!(RunPlan::customized(None, Some(61), None, None), Err(PlanError::PassTooShort));
    assert_eq!(RunPlan::customized(Some(1), None, None, None), Err(PlanError::PassTooShort));
    assert_eq!(RunPlan::customized(Some(0), Some(0), None, None), Err(PlanError::NoPasses));
    assert!(RunPlan::customized(Some(2), None, None, None).is_ok());
}
