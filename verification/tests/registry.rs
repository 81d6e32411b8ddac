use llm_toolkit::registry::{AcquireResult, Registry};

fn test_registry() -> Registry {
    Registry::new()
}

#[test]
fn acquire_new_filename_succeeds() {
    let mut reg = test_registry();
    let result = reg.try_acquire("model-a.gguf", true);
    assert!(matches!(result, AcquireResult::Acquired(_)), "expected Acquired");
}

#[test]
fn duplicate_acquire_returns_already_active() {
    let mut reg = test_registry();
    let first = reg.try_acquire("model-b.gguf", true);
    assert!(matches!(first, AcquireResult::Acquired(_)));
    let second = reg.try_acquire("model-b.gguf", true);
    assert!(
        matches!(second, AcquireResult::AlreadyActive),
        "expected AlreadyActive on second acquire"
    );
}

#[test]
fn drop_guard_releases_slot() {
    let mut reg = test_registry();
    {
        let result = reg.try_acquire("model-c.gguf", true);
        assert!(matches!(result, AcquireResult::Acquired(_)));
        if let AcquireResult::Acquired(guard) = result {
            reg.release(guard);
        }
    }
    let result = reg.try_acquire("model-c.gguf", true);
    assert!(matches!(result, AcquireResult::Acquired(_)), "expected Acquired after drop");
}

#[test]
fn cancel_via_guard_sets_flag() {
    let mut reg = test_registry();
    if let AcquireResult::Acquired(guard) = reg.try_acquire("model-d.gguf", true) {
        assert!(!guard.is_cancelled(&reg));
        guard.cancel(&mut reg);
        assert!(guard.is_cancelled(&reg));
    } else {
        panic!("expected Acquired");
    }
}

#[test]
fn cancellation_token_reflects_guard_state() {
    let mut reg = test_registry();
    if let AcquireResult::Acquired(guard) = reg.try_acquire("model-e.gguf", true) {
        let token = guard.cancellation_token();
        assert!(!token.load(&reg));
        guard.cancel(&mut reg);
        assert!(token.load(&reg));
    } else {
        panic!("expected Acquired");
    }
}

#[test]
fn cancel_via_registry_sets_flag() {
    let mut reg = test_registry();
    if let AcquireResult::Acquired(guard) = reg.try_acquire("model-f.gguf", true) {
        let token = guard.cancellation_token();
        let found = reg.cancel("model-f.gguf");
        assert!(found, "cancel must return true for active download");
        assert!(token.load(&reg));
    } else {
        panic!("expected Acquired");
    }
}

#[test]
fn is_active_reflects_guard_lifetime() {
    let mut reg = test_registry();
    {
        let result = reg.try_acquire("model-g.gguf", true);
        assert!(matches!(result, AcquireResult::Acquired(_)));
        assert!(reg.is_active("model-g.gguf"));
        if let AcquireResult::Acquired(guard) = result {
            reg.release(guard);
        }
    }
    assert!(!reg.is_active("model-g.gguf"));
}

#[test]
fn lock_refused_by_another_process_means_already_active() {
    let mut reg = test_registry();
    let result = reg.try_acquire("model-h.gguf", false);
    assert!(matches!(result, AcquireResult::AlreadyActive));
    assert!(!reg.is_active("model-h.gguf"));
    let again = reg.try_acquire("model-h.gguf", true);
    assert!(matches!(again, AcquireResult::Acquired(_)));
}

#[test]
fn cancel_unknown_filename_returns_false() {
    let mut reg = test_registry();
    assert!(!reg.cancel("nothing.gguf"));
}

#[test]
fn active_downloads_lists_each_active_file_once() {
    let mut reg = test_registry();
    let a = reg.try_acquire("a.gguf", true);
    let _b = reg.try_acquire("b.gguf", true);
    let _again = reg.try_acquire("a.gguf", true);
    let mut names = reg.active_downloads();
    names.sort();
    assert_eq!(names, vec!["a.gguf".to_string(), "b.gguf".to_string()]);
    if let AcquireResult::Acquired(g) = a {
        assert_eq!(g.filename(), "a.gguf");
        reg.release(g);
    }
    assert_eq!(reg.active_downloads(), vec!["b.gguf".to_string()]);
}

#[test]
fn cancellation_flag_outlives_release() {
    let mut reg = test_registry();
    if let AcquireResult::Acquired(guard) = reg.try_acquire("model-i.gguf", true) {
        let token = guard.cancellation_token();
        guard.cancel(&mut reg);
        reg.release(guard);
        assert!(token.load(&reg));
        if let AcquireResult::Acquired(fresh) = reg.try_acquire("model-i.gguf", true) {
            assert!(!fresh.is_cancelled(&reg));
        } else {
            panic!("expected Acquired");
        }
    } else {
        panic!("expected Acquired");
    }
}

#[test]
fn lock_file_name_sanitizes_separators() {
    assert_eq!(Registry::lock_file_name("org/model:q4\\x.gguf"), "org_model_q4_x.gguf.lock");
    assert_eq!(Registry::lock_file_name("a.gguf"), "a.gguf.lock");
    assert_eq!(Registry::lock_file_name(""), ".lock");
}

#[test]
fn cancel_leaves_other_downloads_alone() {
    let mut reg = test_registry();
    let a = match reg.try_acquire("a.gguf", true) {
        AcquireResult::Acquired(g) => g,
        AcquireResult::AlreadyActive => panic!("a.gguf must be acquired"),
    };
    let b = match reg.try_acquire("b.gguf", true) {
        AcquireResult::Acquired(g) => g,
        AcquireResult::AlreadyActive => panic!("b.gguf must be acquired"),
    };
    assert!(reg.cancel("a.gguf"));
    assert!(a.is_cancelled(&reg));
    assert!(!b.is_cancelled(&reg));
    assert!(reg.is_active("a.gguf") && reg.is_active("b.gguf"));
}
