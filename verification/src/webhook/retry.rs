//! How often the delivery of a webhook is tried.

use vstd::prelude::*;

use crate::error::{Error, ErrorView};
use crate::text::{concat, decimal, decimal_text, join, signed_decimal};

verus! {

/// What came back from an HTTP request.
pub enum HttpResponse {
    /// A response with a status: its code, and its text, which has the reason too.
    Status { code: u16, text: String },
    /// The request failed.
    Failed(String),
}

/// What came back from the invocation of a Lambda function.
pub enum LambdaResponse {
    /// The function failed.
    FunctionError(String),
    /// A response with a status.
    Status(i32),
    /// The invocation failed.
    Failed(String),
}

/// What is to be done after an attempt.
pub enum Attempt {
    /// It succeeded.
    Delivered,
    /// It is tried again, as the attempt with this number, after this many milliseconds.
    Again { attempts: usize, delay_ms: u64 },
    /// It is given up.
    GivenUp(Error),
}

/// What is to be done after an attempt, by its view.
#[verifier::ext_equal]
pub enum AttemptView {
    Delivered,
    Again { attempts: int, delay_ms: int },
    GivenUp(ErrorView),
}

impl View for Attempt {
    type V = AttemptView;

    open spec fn view(&self) -> AttemptView {
        match self {
            Attempt::Delivered => AttemptView::Delivered,
            Attempt::Again { attempts, delay_ms } => AttemptView::Again {
                attempts: *attempts as int,
                delay_ms: *delay_ms as int,
            },
            Attempt::GivenUp(e) => AttemptView::GivenUp(e@),
        }
    }
}

/// What is to be done after an attempt that failed: the last one is given up, and any other is tried
/// again after a delay that grows with the number of attempts.
pub open spec fn after_failure(
    attempts: int,
    max_retries: int,
    retry_delay_ms: int,
    error: ErrorView,
) -> AttemptView {
    if attempts >= max_retries - 1 {
        AttemptView::GivenUp(error)
    } else {
        AttemptView::Again { attempts: attempts + 1, delay_ms: retry_delay_ms * (attempts + 1) }
    }
}

/// Whether an HTTP response is a success.
pub open spec fn http_success(response: HttpResponse) -> bool {
    response matches HttpResponse::Status { code, .. } && 200 <= code < 300
}

/// The error that an HTTP response stands for; none where it is a success.
pub open spec fn http_error(response: HttpResponse, max_retries: int) -> Option<ErrorView> {
    let times = decimal(max_retries as nat);
    if http_success(response) {
        None
    } else {
        match response {
            HttpResponse::Status { text, .. } => Some(
                ErrorView::Other("HTTP error "@ + text@ + " after "@ + times + " retries"@),
            ),
            HttpResponse::Failed(e) => Some(
                ErrorView::Other("Request error after "@ + times + " retries: "@ + e@),
            ),
        }
    }
}

/// Whether the response of a Lambda function is a success.
pub open spec fn lambda_success(response: LambdaResponse) -> bool {
    response matches LambdaResponse::Status(code) && 200 <= code < 300
}

/// The error that the response of a Lambda function stands for; none where it is a success.
pub open spec fn lambda_error(response: LambdaResponse, max_retries: int) -> Option<ErrorView> {
    let times = decimal(max_retries as nat);
    if lambda_success(response) {
        None
    } else {
        match response {
            LambdaResponse::FunctionError(e) => Some(
                ErrorView::Other(
                    "Lambda function error '"@ + e@ + "' after "@ + times + " retries"@,
                ),
            ),
            LambdaResponse::Status(code) => Some(
                ErrorView::Other(
                    "Lambda unexpected status "@ + signed_decimal(code as int) + " after "@ + times
                        + " retries"@,
                ),
            ),
            LambdaResponse::Failed(e) => Some(
                ErrorView::Other("Lambda SDK error after "@ + times + " retries: "@ + e@),
            ),
        }
    }
}

/// Whether it can be said what is to be done after an attempt that failed: at least one attempt is
/// allowed, and where another follows, the delay before it can be counted in milliseconds.
pub open spec fn can_judge(attempts: int, max_retries: int, retry_delay_ms: int) -> bool {
    &&& max_retries >= 1
    &&& attempts < max_retries - 1 ==> retry_delay_ms * (attempts + 1) <= u64::MAX
}

/// Whether it can be said what is to be done after an attempt that failed.
pub fn failure_can_be_judged(attempts: usize, max_retries: usize, retry_delay_ms: u64) -> (r: bool)
    ensures
        r == can_judge(attempts as int, max_retries as int, retry_delay_ms as int),
{
    if max_retries == 0 {
        return false;
    }
    if attempts >= max_retries - 1 {
        return true;
    }
    let n: u128 = (attempts + 1) as u128;
    let d: u128 = retry_delay_ms as u128;
    assert(0 <= d * n <= 0xffff_ffff_ffff_ffff * 0xffff_ffff_ffff_ffff) by (nonlinear_arith)
        requires
            0 <= n <= 0xffff_ffff_ffff_ffff,
            0 <= d <= 0xffff_ffff_ffff_ffff,
    ;
    d * n <= 0xffff_ffff_ffff_ffff
}

/// Whether an HTTP response is a success.
pub fn http_succeeded(response: &HttpResponse) -> (r: bool)
    ensures
        r == http_success(*response),
{
    match response {
        HttpResponse::Status { code, .. } => 200 <= *code && *code < 300,
        HttpResponse::Failed(_) => false,
    }
}

/// Whether the response of a Lambda function is a success.
pub fn lambda_succeeded(response: &LambdaResponse) -> (r: bool)
    ensures
        r == lambda_success(*response),
{
    match response {
        LambdaResponse::FunctionError(_) => false,
        LambdaResponse::Status(code) => 200 <= *code && *code < 300,
        LambdaResponse::Failed(_) => false,
    }
}

/// What is to be done after an attempt that failed.
fn failed(attempts: usize, max_retries: usize, retry_delay_ms: u64, error: Error) -> (r: Attempt)
    requires
        can_judge(attempts as int, max_retries as int, retry_delay_ms as int),
    ensures
        r@ == after_failure(attempts as int, max_retries as int, retry_delay_ms as int, error@),
{
    if attempts >= max_retries - 1 {
        Attempt::GivenUp(error)
    } else {
        let next: usize = attempts + 1;
        Attempt::Again { attempts: next, delay_ms: retry_delay_ms * (next as u64) }
    }
}

/// What is to be done after the HTTP request with this number, counted from zero.
pub fn after_http_attempt(
    attempts: usize,
    max_retries: usize,
    retry_delay_ms: u64,
    response: HttpResponse,
) -> (r: Attempt)
    requires
        !http_success(response) ==> can_judge(
            attempts as int,
            max_retries as int,
            retry_delay_ms as int,
        ),
    ensures
        r@ == match http_error(response, max_retries as int) {
            None => AttemptView::Delivered,
            Some(e) => after_failure(attempts as int, max_retries as int, retry_delay_ms as int, e),
        },
{
    let times = decimal_text(max_retries as u64);
    let message = match response {
        HttpResponse::Status { code, text } => {
            if 200 <= code && code < 300 {
                return Attempt::Delivered;
            }
            let status = join("HTTP error ", text.as_str(), " after ");
            join(status.as_str(), times.as_str(), " retries")
        },
        HttpResponse::Failed(e) => {
            let start = join("Request error after ", times.as_str(), " retries: ");
            concat(start.as_str(), e.as_str())
        },
    };
    failed(attempts, max_retries, retry_delay_ms, Error::Other(message))
}

/// A whole number in decimal digits.
fn signed_text(n: i32) -> (r: String)
    ensures
        r@ == signed_decimal(n as int),
{
    if n < 0 {
        let magnitude: u64 = (-(n as i64)) as u64;
        concat("-", decimal_text(magnitude).as_str())
    } else {
        decimal_text(n as u64)
    }
}

/// What is to be done after the invocation of a Lambda function with this number, counted from zero.
pub fn after_lambda_attempt(
    attempts: usize,
    max_retries: usize,
    retry_delay_ms: u64,
    response: LambdaResponse,
) -> (r: Attempt)
    requires
        !lambda_success(response) ==> can_judge(
            attempts as int,
            max_retries as int,
            retry_delay_ms as int,
        ),
    ensures
        r@ == match lambda_error(response, max_retries as int) {
            None => AttemptView::Delivered,
            Some(e) => after_failure(attempts as int, max_retries as int, retry_delay_ms as int, e),
        },
{
    let times = decimal_text(max_retries as u64);
    let message = match response {
        LambdaResponse::FunctionError(e) => {
            let start = join("Lambda function error '", e.as_str(), "' after ");
            join(start.as_str(), times.as_str(), " retries")
        },
        LambdaResponse::Status(code) => {
            if 200 <= code && code < 300 {
                return Attempt::Delivered;
            }
            let start = join("Lambda unexpected status ", signed_text(code).as_str(), " after ");
            join(start.as_str(), times.as_str(), " retries")
        },
        LambdaResponse::Failed(e) => {
            let start = join("Lambda SDK error after ", times.as_str(), " retries: ");
            concat(start.as_str(), e.as_str())
        },
    };
    failed(attempts, max_retries, retry_delay_ms, Error::Other(message))
}

/// What is to be done after the attempt with number `attempts` and all attempts before it failed
/// with `errors`.
pub open spec fn after_failures(
    errors: Seq<ErrorView>,
    max_retries: int,
    retry_delay_ms: int,
) -> AttemptView
    decreases errors.len(),
{
    if errors.len() == 0 {
        AttemptView::Again { attempts: 0, delay_ms: 0 }
    } else {
        match after_failures(errors.drop_last(), max_retries, retry_delay_ms) {
            AttemptView::Again { attempts, .. } => after_failure(
                attempts,
                max_retries,
                retry_delay_ms,
                errors.last(),
            ),
            done => done,
        }
    }
}

/// A delivery that fails each time is tried exactly as often as is allowed, and then given up with
/// the last error; the delay before the attempt with number `n`, counted from zero, is `n` times
/// the delay that is set.
pub proof fn failing_delivery_is_tried_as_often_as_allowed(
    errors: Seq<ErrorView>,
    max_retries: int,
    retry_delay_ms: int,
)
    requires
        max_retries >= 1,
        0 < errors.len() <= max_retries,
    ensures
        errors.len() < max_retries ==> after_failures(errors, max_retries, retry_delay_ms)
            == (AttemptView::Again {
            attempts: errors.len() as int,
            delay_ms: retry_delay_ms * errors.len(),
        }),
        errors.len() == max_retries ==> after_failures(errors, max_retries, retry_delay_ms)
            == AttemptView::GivenUp(errors.last()),
    decreases errors.len(),
{
    let rest = errors.drop_last();
    reveal_with_fuel(after_failures, 2);
    if rest.len() > 0 {
        failing_delivery_is_tried_as_often_as_allowed(rest, max_retries, retry_delay_ms);
    }
}

/// What an HTTP response stands for: a success is a status from 200 to 299; any other status, and a
/// request that failed, is an error that tells the status or the reason, and how often the delivery may
/// be tried.
pub proof fn http_response_is_judged_by_its_status(response: HttpResponse, max_retries: int)
    requires
        max_retries >= 0,
    ensures
        http_error(response, max_retries) == match response {
            HttpResponse::Status { code, text } => if code >= 200 && code <= 299 {
                None
            } else {
                Some(
                    ErrorView::Other(
                        "HTTP error "@ + text@ + " after "@ + decimal(max_retries as nat)
                            + " retries"@,
                    ),
                )
            },
            HttpResponse::Failed(e) => Some(
                ErrorView::Other(
                    "Request error after "@ + decimal(max_retries as nat) + " retries: "@ + e@,
                ),
            ),
        },
{
}

/// What the response of a Lambda function stands for: a success is a status from 200 to 299; an error
/// of the function, any other status, and a call that failed, is an error that tells what happened, and
/// how often the delivery may be tried.
pub proof fn lambda_response_is_judged_by_its_status(response: LambdaResponse, max_retries: int)
    requires
        max_retries >= 0,
    ensures
        lambda_error(response, max_retries) == match response {
            LambdaResponse::Status(code) => if code >= 200 && code <= 299 {
                None
            } else {
                Some(
                    ErrorView::Other(
                        "Lambda unexpected status "@ + signed_decimal(code as int) + " after "@
                            + decimal(max_retries as nat) + " retries"@,
                    ),
                )
            },
            LambdaResponse::FunctionError(e) => Some(
                ErrorView::Other(
                    "Lambda function error '"@ + e@ + "' after "@ + decimal(max_retries as nat)
                        + " retries"@,
                ),
            ),
            LambdaResponse::Failed(e) => Some(
                ErrorView::Other(
                    "Lambda SDK error after "@ + decimal(max_retries as nat) + " retries: "@ + e@,
                ),
            ),
        },
{
}

/// After an attempt that failed, the next comes after the delay times the number of attempts so far;
/// the last is not followed by another.
pub proof fn next_attempt_waits_longer(
    attempts: int,
    max_retries: int,
    retry_delay_ms: int,
    error: ErrorView,
)
    requires
        0 <= attempts < max_retries,
    ensures
        attempts + 1 == max_retries ==> after_failure(attempts, max_retries, retry_delay_ms, error)
            == AttemptView::GivenUp(error),
        attempts + 1 < max_retries ==> after_failure(attempts, max_retries, retry_delay_ms, error)
            == (AttemptView::Again {
            attempts: attempts + 1,
            delay_ms: retry_delay_ms * (attempts + 1),
        }),
{
}

/// What comes after a failure can be told where the delivery may be tried at all, and the delay before
/// the next attempt, if there is one, fits.
pub proof fn failure_can_be_judged_where_the_delay_fits(
    attempts: int,
    max_retries: int,
    retry_delay_ms: int,
)
    requires
        0 <= attempts,
        0 <= retry_delay_ms,
    ensures
        max_retries <= 0 ==> !can_judge(attempts, max_retries, retry_delay_ms),
        0 < max_retries <= attempts + 1 ==> can_judge(attempts, max_retries, retry_delay_ms),
        max_retries > attempts + 1 && retry_delay_ms * (attempts + 1)
            <= 0xffff_ffff_ffff_ffff ==> can_judge(attempts, max_retries, retry_delay_ms),
        max_retries > attempts + 1 && retry_delay_ms * (attempts + 1)
            > 0xffff_ffff_ffff_ffff ==> !can_judge(attempts, max_retries, retry_delay_ms),
{
}

} // verus!
