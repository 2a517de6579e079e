//! Trying an operation again after a passing trouble.
use crate::failure::{ErrorClass, ErrorCode, Fault, FaultView};
use vstd::prelude::*;

verus! {

/// How many times an operation is tried again after network trouble.
pub const NET_RETRIES: usize = 10;

/// How many times an operation is tried again while a lock is held.
pub const LOCK_RETRIES: usize = 3;

/// How long to wait before an operation is tried again, in milliseconds.
pub const RETRY_INTERVAL: u64 = 1000;

/// What follows an attempt.
#[derive(Debug)]
pub enum Attempt<T, E> {
    /// The attempt was the last, and this is the result of the whole.
    Return(Result<T, E>),
    /// The operation is to be tried again, after the given number of milliseconds where there is
    /// one.
    TryAgain(Option<u64>),
}

/// Whether another attempt is left after `failures` attempts failed and then one more did: there
/// is no limit, or fewer than `retry_counts` retries were made.
pub open spec fn retries_left(failures: nat, retry_counts: Option<usize>) -> bool {
    match retry_counts {
        Some(counts) => failures < counts,
        None => true,
    }
}

/// What follows an attempt that came after `failures` failed ones, where `continue_on` tells the
/// errors that are worth another attempt.
pub open spec fn retry<T, E>(
    failures: nat,
    retry_counts: Option<usize>,
    try_interval: Option<u64>,
    result: Result<T, E>,
    continue_on: spec_fn(E) -> bool,
) -> Attempt<T, E> {
    match result {
        Ok(value) => Attempt::Return(Ok(value)),
        Err(error) => if retries_left(failures, retry_counts) && continue_on(error) {
            Attempt::TryAgain(try_interval)
        } else {
            Attempt::Return(Err(error))
        },
    }
}

/// Whether an error is network trouble that may pass: any error of the network, and any of the
/// SSH transport but a failed authentication.
pub open spec fn net_trouble(fault: FaultView) -> bool {
    fault.class == ErrorClass::Net || (fault.class == ErrorClass::Ssh && fault.code
        != ErrorCode::Auth)
}

/// Whether an error says that another process holds a lock.
pub open spec fn lock_trouble(fault: FaultView) -> bool {
    fault.code == ErrorCode::Locked
}

/// Decides what follows an attempt that came after `failures` failed ones: success ends the
/// whole, and so does an error that is not worth another attempt (`continue_on` is false) or for
/// which no retry is left.
pub fn retry_if<T, E>(
    failures: usize,
    retry_counts: Option<usize>,
    try_interval: Option<u64>,
    result: Result<T, E>,
    continue_on: bool,
) -> (attempt: Attempt<T, E>)
    ensures
        attempt == retry(
            failures as nat,
            retry_counts,
            try_interval,
            result,
            |error: E| continue_on,
        ),
{
    match result {
        Ok(value) => Attempt::Return(Ok(value)),
        Err(error) => {
            let left = match retry_counts {
                Some(counts) => failures < counts,
                None => true,
            };
            if left && continue_on {
                Attempt::TryAgain(try_interval)
            } else {
                Attempt::Return(Err(error))
            }
        },
    }
}

/// Decides what follows an attempt at an operation over the network.
pub fn retry_if_net<T>(failures: usize, result: Result<T, Fault>) -> (attempt: Attempt<T, Fault>)
    ensures
        attempt == retry(
            failures as nat,
            Some(NET_RETRIES),
            Some(RETRY_INTERVAL),
            result,
            |fault: Fault| net_trouble(fault@),
        ),
{
    let continue_on = match &result {
        Ok(_) => false,
        Err(fault) => fault.class == ErrorClass::Net || (fault.class == ErrorClass::Ssh
            && fault.code != ErrorCode::Auth),
    };
    retry_if(failures, Some(NET_RETRIES), Some(RETRY_INTERVAL), result, continue_on)
}

/// Decides what follows an attempt at an operation that takes a lock.
pub fn retry_if_locked<T>(failures: usize, result: Result<T, Fault>) -> (attempt: Attempt<T, Fault>)
    ensures
        attempt == retry(
            failures as nat,
            Some(LOCK_RETRIES),
            Some(RETRY_INTERVAL),
            result,
            |fault: Fault| lock_trouble(fault@),
        ),
{
    let continue_on = match &result {
        Ok(_) => false,
        Err(fault) => fault.code == ErrorCode::Locked,
    };
    retry_if(failures, Some(LOCK_RETRIES), Some(RETRY_INTERVAL), result, continue_on)
}

/// Whether `results` are the results of consecutive attempts at one operation: after each but
/// the last, the operation was to be tried again.
pub open spec fn attempts<T, E>(
    results: Seq<Result<T, E>>,
    retry_counts: Option<usize>,
    try_interval: Option<u64>,
    continue_on: spec_fn(E) -> bool,
) -> bool {
    forall|i: int|
        0 <= i < results.len() - 1 ==> #[trigger] retry(
            i as nat,
            retry_counts,
            try_interval,
            results[i],
            continue_on,
        ) is TryAgain
}

/// An operation that may be retried `counts` times is attempted at most `counts + 1` times, and
/// every attempt before the last failed with an error worth another attempt.
pub proof fn law_attempts_are_bounded<T, E>(
    results: Seq<Result<T, E>>,
    counts: usize,
    try_interval: Option<u64>,
    continue_on: spec_fn(E) -> bool,
)
    requires
        attempts(results, Some(counts), try_interval, continue_on),
    ensures
        results.len() <= counts + 1,
        forall|i: int|
            0 <= i < results.len() - 1 ==> (#[trigger] results[i] matches Err(error)
                && continue_on(error)),
{
    assert forall|i: int| 0 <= i < results.len() - 1 implies (#[trigger] results[i] matches Err(
        error,
    ) && continue_on(error)) by {
        assert(retry(i as nat, Some(counts), try_interval, results[i], continue_on) is TryAgain);
    }
    if results.len() > counts + 1 {
        let end = counts as int;
        assert(retry(end as nat, Some(counts), try_interval, results[end], continue_on) is TryAgain);
    }
}

/// The operation ends with the result of its last attempt, and it ends exactly where that is a
/// success, an error not worth another attempt, or the failure of the last retry. Without a limit
/// the last case is absent.
pub proof fn law_last_attempt_is_the_result<T, E>(
    results: Seq<Result<T, E>>,
    retry_counts: Option<usize>,
    try_interval: Option<u64>,
    continue_on: spec_fn(E) -> bool,
)
    requires
        results.len() > 0,
        attempts(results, retry_counts, try_interval, continue_on),
    ensures
        ({
            let end = retry(
                (results.len() - 1) as nat,
                retry_counts,
                try_interval,
                results.last(),
                continue_on,
            );
            let ended = match results.last() {
                Ok(_) => true,
                Err(error) => !continue_on(error) || retry_counts == Some(
                    (results.len() - 1) as usize,
                ),
            };
            &&& ended ==> end == Attempt::Return(results.last())
            &&& !ended ==> end == Attempt::<T, E>::TryAgain(try_interval)
        }),
{
    if let Some(counts) = retry_counts {
        law_attempts_are_bounded(results, counts, try_interval, continue_on);
    }
}

/// Whether one limit allows at least as many retries as another.
pub open spec fn allows_more(more: Option<usize>, retry_counts: Option<usize>) -> bool {
    match (more, retry_counts) {
        (None, _) => true,
        (Some(_), None) => false,
        (Some(more), Some(counts)) => counts <= more,
    }
}

/// To allow more retries, or any number of them, never changes a success: the same attempts lead
/// to it.
pub proof fn law_more_retries_keep_a_success<T, E>(
    results: Seq<Result<T, E>>,
    retry_counts: Option<usize>,
    more: Option<usize>,
    try_interval: Option<u64>,
    continue_on: spec_fn(E) -> bool,
)
    requires
        attempts(results, retry_counts, try_interval, continue_on),
        results.len() > 0,
        results.last() is Ok,
        allows_more(more, retry_counts),
    ensures
        attempts(results, more, try_interval, continue_on),
        retry(
            (results.len() - 1) as nat,
            more,
            try_interval,
            results.last(),
            continue_on,
        ) == Attempt::Return(results.last()),
{
    assert forall|i: int| 0 <= i < results.len() - 1 implies #[trigger] retry(
        i as nat,
        more,
        try_interval,
        results[i],
        continue_on,
    ) is TryAgain by {
        assert(retry(i as nat, retry_counts, try_interval, results[i], continue_on) is TryAgain);
    }
}

/// Which errors of an operation over the network are worth another attempt: every error of the
/// network, every one of the SSH transport but a failed authentication, and no other. Which errors
/// of an operation that takes a lock are: every one that says that the lock is held, and no other.
pub proof fn law_what_is_passing_trouble(fault: FaultView)
    ensures
        fault.class == ErrorClass::Net ==> net_trouble(fault),
        fault.class == ErrorClass::Ssh ==> (net_trouble(fault) <==> fault.code != ErrorCode::Auth),
        fault.class != ErrorClass::Net && fault.class != ErrorClass::Ssh ==> !net_trouble(fault),
        lock_trouble(fault) <==> fault.code == ErrorCode::Locked,
{
}

/// The network is tried ten more times, a lock three more times, each time a second later.
pub proof fn law_how_often_is_tried_again<T>(failures: nat, fault: Fault)
    ensures
        ({
            let net = retry(
                failures,
                Some(NET_RETRIES),
                Some(RETRY_INTERVAL),
                Err::<T, Fault>(fault),
                |f: Fault| net_trouble(f@),
            );
            let again = failures < 10 && net_trouble(fault@);
            net == if again {
                Attempt::<T, Fault>::TryAgain(Some(1000))
            } else {
                Attempt::<T, Fault>::Return(Err(fault))
            }
        }),
        ({
            let lock = retry(
                failures,
                Some(LOCK_RETRIES),
                Some(RETRY_INTERVAL),
                Err::<T, Fault>(fault),
                |f: Fault| lock_trouble(f@),
            );
            let again = failures < 3 && lock_trouble(fault@);
            lock == if again {
                Attempt::<T, Fault>::TryAgain(Some(1000))
            } else {
                Attempt::<T, Fault>::Return(Err(fault))
            }
        }),
{
}

/// A success ends the attempts, whatever came before, and without a limit only an error that is not
/// worth another attempt does.
pub proof fn law_success_ends_the_attempts<T, E>(
    failures: nat,
    retry_counts: Option<usize>,
    try_interval: Option<u64>,
    value: T,
    error: E,
    continue_on: spec_fn(E) -> bool,
)
    ensures
        retry(failures, retry_counts, try_interval, Ok::<T, E>(value), continue_on)
            == Attempt::Return(Ok::<T, E>(value)),
        retry(failures, None, try_interval, Err::<T, E>(error), continue_on) == if continue_on(
            error,
        ) {
            Attempt::<T, E>::TryAgain(try_interval)
        } else {
            Attempt::<T, E>::Return(Err(error))
        },
{
}

/// What an attempt leads to: another one a second later exactly where it failed with trouble that
/// may pass and was not tried again too often, and otherwise its own result.
pub proof fn law_what_an_attempt_leads_to<T>(
    failures: usize,
    result: Result<T, Fault>,
    over_net: Attempt<T, Fault>,
    under_lock: Attempt<T, Fault>,
)
    requires
        call_ensures(retry_if_net::<T>, (failures, result), over_net),
        call_ensures(retry_if_locked::<T>, (failures, result), under_lock),
    ensures
        over_net is TryAgain <==> (result matches Err(fault) && failures < 10 && (fault.class
            == ErrorClass::Net || (fault.class == ErrorClass::Ssh && fault.code
            != ErrorCode::Auth))),
        under_lock is TryAgain <==> (result matches Err(fault) && failures < 3 && fault.code
            == ErrorCode::Locked),
        over_net matches Attempt::TryAgain(wait) ==> wait == Some(1000u64),
        under_lock matches Attempt::TryAgain(wait) ==> wait == Some(1000u64),
        over_net matches Attempt::Return(last) ==> last == result,
        under_lock matches Attempt::Return(last) ==> last == result,
{
}

/// Without a rule of its own, an attempt is followed by another exactly where it failed, the error
/// is worth it and a retry is left.
pub proof fn law_when_another_attempt_follows<T, E>(
    failures: usize,
    retry_counts: Option<usize>,
    try_interval: Option<u64>,
    result: Result<T, E>,
    continue_on: bool,
    attempt: Attempt<T, E>,
)
    requires
        call_ensures(
            retry_if::<T, E>,
            (failures, retry_counts, try_interval, result, continue_on),
            attempt,
        ),
    ensures
        attempt is TryAgain <==> result is Err && continue_on && (retry_counts matches Some(counts)
            ==> failures < counts),
        attempt matches Attempt::TryAgain(wait) ==> wait == try_interval,
        attempt matches Attempt::Return(last) ==> last == result,
{
}

} // verus!
