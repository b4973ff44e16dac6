use wake::error::{combine_cleanup, AppError, INHIBITOR_STARTUP_EXIT_CODE};

#[test]
fn cleanup_combination_covers_all_result_pairs() {
    assert_eq!(combine_cleanup(Ok(7), Ok(())).unwrap(), 7);
    assert_eq!(
        combine_cleanup::<()>(Err(AppError::fail("primary")), Ok(()))
            .unwrap_err()
            .message(),
        "primary"
    );
    assert_eq!(
        combine_cleanup(Ok(7), Err(AppError::fail("cleanup")))
            .unwrap_err()
            .message(),
        "cleanup"
    );
    assert_eq!(
        combine_cleanup::<()>(
            Err(AppError::fail("primary")),
            Err(AppError::fail("cleanup")),
        )
        .unwrap_err()
        .message(),
        "primary; cleanup failed: cleanup"
    );
}

#[test]
fn each_kind_of_error_has_its_exit_code() {
    assert_eq!(AppError::usage("u").exit_code(), 2);
    assert_eq!(AppError::fail("f").exit_code(), 1);
    assert_eq!(
        AppError::inhibitor_startup("i").exit_code(),
        INHIBITOR_STARTUP_EXIT_CODE
    );
    assert_eq!(AppError::inhibitor_startup("i").clone().message(), "i");
}
