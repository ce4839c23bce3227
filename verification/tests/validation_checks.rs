use cfr_atlas::validation::{check_validation_plan, check_validation_step};
use cfr_atlas::CfrError;

#[test]
fn validation_plan_reports_the_first_problem() {
    assert_eq!(check_validation_plan(4, 1, 1, &[0, 3], true, true), Ok(()));
    assert_eq!(
        check_validation_plan(0, 0, 0, &[], false, false),
        Err(CfrError::InvalidLedger("validation prompt must not be empty"))
    );
    assert_eq!(
        check_validation_plan(4, 0, 1, &[0], true, true),
        Err(CfrError::InvalidConfig("validation layers must not be empty"))
    );
    assert_eq!(
        check_validation_plan(4, 1, 0, &[0], true, true),
        Err(CfrError::InvalidConfig("validation query_heads must not be empty"))
    );
    assert_eq!(
        check_validation_plan(4, 1, 1, &[], true, true),
        Err(CfrError::InvalidConfig("validation decode_steps must not be empty"))
    );
    assert_eq!(
        check_validation_plan(4, 1, 1, &[9], false, true),
        Err(CfrError::InvalidConfig("output_tolerance must be finite and non-negative"))
    );
    assert_eq!(
        check_validation_plan(4, 1, 1, &[9], true, false),
        Err(CfrError::InvalidConfig("logit_tolerance must be finite and non-negative"))
    );
    assert_eq!(
        check_validation_plan(4, 1, 1, &[1, 4], true, true),
        Err(CfrError::InvalidLedger("decode step exceeds prompt length"))
    );
}

#[test]
fn validation_step_reports_the_first_problem() {
    assert_eq!(check_validation_step(2, 1, 8, 16, true, true, 4, 4), Ok(()));
    assert_eq!(
        check_validation_step(0, 0, 8, 16, true, true, 4, 4),
        Err(CfrError::InvalidConfig("validation layers must be non-zero"))
    );
    assert_eq!(
        check_validation_step(2, 2, 8, 16, true, true, 4, 4),
        Err(CfrError::InvalidConfig("validation layer is out of range"))
    );
    assert_eq!(
        check_validation_step(2, 1, 0, 16, true, true, 4, 4),
        Err(CfrError::InvalidConfig("validation context_tokens must be non-zero"))
    );
    assert_eq!(
        check_validation_step(2, 1, 8, 0, true, true, 4, 4),
        Err(CfrError::InvalidConfig("validation projector vocab_size must be non-zero"))
    );
    assert_eq!(
        check_validation_step(2, 1, 8, 16, false, true, 4, 4),
        Err(CfrError::InvalidConfig("output_tolerance must be finite and non-negative"))
    );
    assert_eq!(
        check_validation_step(2, 1, 8, 16, true, false, 4, 4),
        Err(CfrError::InvalidConfig("logit_tolerance must be finite and non-negative"))
    );
    assert_eq!(
        check_validation_step(2, 1, 8, 16, true, true, 4, 3),
        Err(CfrError::Dimension { name: "validation query", expected: 4, got: 3 })
    );
}
