use tilebook::grid::{tile_counts, tile_origin};
use tilebook::limiter::{Limiter, ASSEMBLY_LIMITER_CAPACITY, NETWORK_LIMITER_CAPACITY};
use tilebook::retry::{after_failed_attempt, backoff_delay_ms, RetryDecision, MAX_ATTEMPTS};
use tilebook::state::{fetch_step, page_step, FetchEvent, FetchState, PageEvent, PageState};

#[test]
fn grid_shape_of_600_by_300() {
    // ceil(600/256) = 3, ceil(300/256) = 2, so 6 tiles in all.
    let (horizontal, vertical) = tile_counts(600, 300);
    assert_eq!(horizontal, 3);
    assert_eq!(vertical, 2);
    assert_eq!(horizontal as u64 * vertical as u64, 6);
}

#[test]
fn grid_shape_edge_cases() {
    assert_eq!(tile_counts(1, 1), (1, 1));
    assert_eq!(tile_counts(256, 256), (1, 1));
    assert_eq!(tile_counts(257, 256), (2, 1));
    assert_eq!(tile_counts(256, 257), (1, 2));
    assert_eq!(tile_counts(512, 512), (2, 2));
}

#[test]
fn tile_origin_is_row_major() {
    // 3 columns: index 5 is column 2 of row 1.
    assert_eq!(tile_origin(0, 3), (0, 0));
    assert_eq!(tile_origin(1, 3), (256, 0));
    assert_eq!(tile_origin(2, 3), (512, 0));
    assert_eq!(tile_origin(3, 3), (0, 256));
    assert_eq!(tile_origin(5, 3), (512, 256));
}

#[test]
fn tile_index_coordinate_roundtrip() {
    let horizontal = 7u32;
    let vertical = 5u32;
    for index in 0..horizontal * vertical {
        let x_index = index % horizontal;
        let y_index = index / horizontal;
        assert_eq!(y_index * horizontal + x_index, index);
        assert!(x_index < horizontal);
        assert!(y_index < vertical);
    }
}

#[test]
fn backoff_delay_schedule() {
    // 9 delays between the 10 attempts: doubling from 250 ms, capped at 5000.
    let expected = [250u64, 500, 1000, 2000, 4000, 5000, 5000, 5000, 5000];
    for (attempt, want) in expected.iter().enumerate() {
        assert_eq!(backoff_delay_ms(attempt as u32), *want);
    }
}

#[test]
fn retry_decisions_end_in_give_up() {
    for attempt in 0..MAX_ATTEMPTS - 1 {
        match after_failed_attempt(attempt) {
            RetryDecision::Retry { delay_ms } => {
                assert_eq!(delay_ms, backoff_delay_ms(attempt));
            }
            RetryDecision::GiveUp => panic!("gave up before the last attempt"),
        }
    }
    assert_eq!(after_failed_attempt(MAX_ATTEMPTS - 1), RetryDecision::GiveUp);
}

#[test]
fn limiter_grants_at_most_capacity() {
    let mut limiter = Limiter::new(2);
    assert!(limiter.try_acquire());
    assert!(limiter.try_acquire());
    assert!(!limiter.try_acquire());
    limiter.release();
    assert!(limiter.try_acquire());
}

#[test]
fn assembly_limiter_default_is_one() {
    let mut limiter = Limiter::new(ASSEMBLY_LIMITER_CAPACITY);
    assert!(limiter.try_acquire());
    assert!(!limiter.try_acquire());
    limiter.release();
    assert!(limiter.try_acquire());
}

#[test]
fn network_limiter_permits_are_reusable() {
    // Six fetches of one page acquire and release; a later unrelated fetch
    // must still find a free slot.
    let mut limiter = Limiter::new(NETWORK_LIMITER_CAPACITY);
    for _ in 0..6 {
        assert!(limiter.try_acquire());
    }
    for _ in 0..6 {
        limiter.release();
    }
    assert!(limiter.try_acquire());
    assert_eq!(limiter.in_flight, 1);
}

#[test]
fn page_state_machine_success_path() {
    let s = PageState::NotStarted;
    let s = page_step(s, PageEvent::FetchStarted);
    assert_eq!(s, PageState::FetchingTiles);
    let s = page_step(s, PageEvent::TilesFetched);
    assert_eq!(s, PageState::Assembling);
    let s = page_step(s, PageEvent::AssemblyFinished);
    assert_eq!(s, PageState::Done);
}

#[test]
fn page_state_machine_failure_paths() {
    assert_eq!(
        page_step(PageState::NotStarted, PageEvent::FetchFailed),
        PageState::Failed
    );
    assert_eq!(
        page_step(PageState::FetchingTiles, PageEvent::FetchFailed),
        PageState::Failed
    );
    assert_eq!(
        page_step(PageState::Assembling, PageEvent::AssemblyFailed),
        PageState::Failed
    );
}

#[test]
fn fetch_machine_gives_up_after_the_last_attempt() {
    // A tile that fails every attempt: permit granted, then 10 attempts
    // with a backoff between each pair, then a terminal failure with the
    // slot released.
    let mut state = fetch_step(FetchState::AwaitingPermit, FetchEvent::PermitGranted);
    assert_eq!(state, FetchState::Attempting { attempt: 0 });
    for attempt in 0..MAX_ATTEMPTS - 1 {
        state = fetch_step(state, FetchEvent::AttemptFailed);
        assert_eq!(state, FetchState::Backoff { attempt });
        state = fetch_step(state, FetchEvent::BackoffElapsed);
        assert_eq!(state, FetchState::Attempting { attempt: attempt + 1 });
    }
    state = fetch_step(state, FetchEvent::AttemptFailed);
    assert_eq!(state, FetchState::Exhausted);
}

#[test]
fn fetch_machine_success_releases_the_slot() {
    let state = fetch_step(FetchState::AwaitingPermit, FetchEvent::PermitGranted);
    let state = fetch_step(state, FetchEvent::AttemptFailed);
    let state = fetch_step(state, FetchEvent::BackoffElapsed);
    let state = fetch_step(state, FetchEvent::AttemptSucceeded);
    assert_eq!(state, FetchState::Fetched);
}

#[test]
fn page_terminal_states_absorb() {
    let events = [
        PageEvent::FetchStarted,
        PageEvent::TilesFetched,
        PageEvent::FetchFailed,
        PageEvent::AssemblyFinished,
        PageEvent::AssemblyFailed,
    ];
    for event in events {
        assert_eq!(page_step(PageState::Done, event), PageState::Done);
        assert_eq!(page_step(PageState::Failed, event), PageState::Failed);
    }
}
