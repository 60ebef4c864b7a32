//! A request's life while it is sent: its phase, the feedback shown, and the decisions
//! taken when the user sends it and when a result comes back.
use vstd::prelude::*;
use crate::http_method::{parse, spec_parse_method};
use crate::i18n::UiText;
use crate::session::RequestStatus;
use crate::text::{copy_str, eq_str, trim, trim_str};

verus! {

/// A message for the user, with how it should look.
pub enum Feedback {
    Success(String),
    Warning(String),
    Error(String),
}

pub enum FeedbackView {
    Success(Seq<char>),
    Warning(Seq<char>),
    Error(Seq<char>),
}

impl View for Feedback {
    type V = FeedbackView;

    open spec fn view(&self) -> FeedbackView {
        match self {
            Feedback::Success(m) => FeedbackView::Success(m@),
            Feedback::Warning(m) => FeedbackView::Warning(m@),
            Feedback::Error(m) => FeedbackView::Error(m@),
        }
    }
}

pub open spec fn feedback_text(f: FeedbackView) -> Seq<char> {
    match f {
        FeedbackView::Success(m) => m,
        FeedbackView::Warning(m) => m,
        FeedbackView::Error(m) => m,
    }
}

impl Feedback {
    pub fn message(&self) -> (r: &str)
        ensures
            r@ == feedback_text(self@),
    {
        match self {
            Feedback::Success(m) => m.as_str(),
            Feedback::Warning(m) => m.as_str(),
            Feedback::Error(m) => m.as_str(),
        }
    }
}

impl Clone for Feedback {
    fn clone(&self) -> (r: Self)
        ensures
            r@ == self@,
    {
        match self {
            Feedback::Success(m) => Feedback::Success(m.clone()),
            Feedback::Warning(m) => Feedback::Warning(m.clone()),
            Feedback::Error(m) => Feedback::Error(m.clone()),
        }
    }
}

/// Where a request is: not sent, being sent under an operation, answered, or failed.
pub enum RequestPhase<T> {
    Idle,
    Sending { operation_id: String },
    Received { status: u16, response: T },
    Failed { status: RequestStatus, error: String },
}

/// A request's phase and the feedback of its last result. The answer to a request is held
/// as `T`, which this state does not read.
pub struct RequestRuntimeState<T> {
    pub phase: RequestPhase<T>,
    pub feedback: Option<Feedback>,
}

/// The status that a phase shows.
pub open spec fn phase_status<T>(phase: RequestPhase<T>) -> RequestStatus {
    match phase {
        RequestPhase::Idle => RequestStatus::NotSent,
        RequestPhase::Sending { .. } => RequestStatus::Sending,
        RequestPhase::Received { status, .. } => if status < 400 {
            RequestStatus::Success
        } else {
            RequestStatus::Failed
        },
        RequestPhase::Failed { status, .. } => status,
    }
}

impl<T> RequestRuntimeState<T> {
    pub fn new() -> (r: Self)
        ensures
            r.phase is Idle,
            r.feedback is None,
    {
        RequestRuntimeState { phase: RequestPhase::Idle, feedback: None }
    }

    pub fn status(&self) -> (r: RequestStatus)
        ensures
            r == phase_status(self.phase),
    {
        match &self.phase {
            RequestPhase::Idle => RequestStatus::NotSent,
            RequestPhase::Sending { .. } => RequestStatus::Sending,
            RequestPhase::Received { status, .. } => RequestStatus::from_http_status(*status),
            RequestPhase::Failed { status, .. } => *status,
        }
    }

    pub fn response(&self) -> (r: Option<&T>)
        ensures
            match self.phase {
                RequestPhase::Received { response, .. } => r == Some(&response),
                _ => r is None,
            },
    {
        match &self.phase {
            RequestPhase::Received { response, .. } => Some(response),
            _ => None,
        }
    }

    pub fn error(&self) -> (r: Option<&str>)
        ensures
            match self.phase {
                RequestPhase::Failed { error, .. } => r matches Some(e) && e@ == error@,
                _ => r is None,
            },
    {
        match &self.phase {
            RequestPhase::Failed { error, .. } => Some(error.as_str()),
            _ => None,
        }
    }

    /// The operation that the request is being sent under, while it is.
    pub fn active_operation_id(&self) -> (r: Option<&str>)
        ensures
            match self.phase {
                RequestPhase::Sending { operation_id } => r matches Some(o) && o@ == operation_id@,
                _ => r is None,
            },
    {
        match &self.phase {
            RequestPhase::Sending { operation_id } => Some(operation_id.as_str()),
            _ => None,
        }
    }

    pub fn feedback(&self) -> (r: Option<&Feedback>)
        ensures
            r == match &self.feedback {
                Some(f) => Some(f),
                None => None,
            },
    {
        match &self.feedback {
            Some(f) => Some(f),
            None => None,
        }
    }

    /// Sending starts: the phase records the operation and the last feedback goes.
    pub fn start(&mut self, operation_id: String)
        ensures
            final(self).phase == (RequestPhase::<T>::Sending { operation_id }),
            final(self).feedback is None,
    {
        self.phase = RequestPhase::Sending { operation_id };
        self.feedback = None;
    }

    pub fn receive_response(&mut self, status: u16, response: T, feedback: Feedback)
        ensures
            final(self).phase == (RequestPhase::Received { status, response }),
            final(self).feedback == Some(feedback),
    {
        self.phase = RequestPhase::Received { status, response };
        self.feedback = Some(feedback);
    }

    pub fn complete_failure(&mut self, status: RequestStatus, error: String, feedback: Feedback)
        ensures
            final(self).phase == (RequestPhase::<T>::Failed { status, error }),
            final(self).feedback == Some(feedback),
    {
        self.phase = RequestPhase::Failed { status, error };
        self.feedback = Some(feedback);
    }

    pub fn cancel(&mut self, feedback: Feedback)
        ensures
            final(self).phase is Idle,
            final(self).feedback == Some(feedback),
    {
        self.phase = RequestPhase::Idle;
        self.feedback = Some(feedback);
    }

    pub fn reset(&mut self)
        ensures
            final(self).phase is Idle,
            final(self).feedback is None,
    {
        self.phase = RequestPhase::Idle;
        self.feedback = None;
    }
}

/// What sending the current request comes to.
pub enum SendAction {
    /// The workspace is being reloaded: nothing happens.
    Ignore,
    /// No request is selected: a warning.
    SelectionRequired,
    /// The request is being sent: sending it again cancels it.
    Cancel,
    /// The request has no URL: a warning.
    UrlRequired,
    /// The request's method is not a valid one: a warning naming it.
    InvalidMethod(String),
    /// The request goes out.
    Send,
}

pub enum SendView {
    Ignore,
    SelectionRequired,
    Cancel,
    UrlRequired,
    InvalidMethod(Seq<char>),
    Send,
}

impl View for SendAction {
    type V = SendView;

    open spec fn view(&self) -> SendView {
        match self {
            SendAction::Ignore => SendView::Ignore,
            SendAction::SelectionRequired => SendView::SelectionRequired,
            SendAction::Cancel => SendView::Cancel,
            SendAction::UrlRequired => SendView::UrlRequired,
            SendAction::InvalidMethod(m) => SendView::InvalidMethod(m@),
            SendAction::Send => SendView::Send,
        }
    }
}

/// Sending decides in this order: nothing during a reload; a warning without a selected
/// request; a cancel while it is sending; a warning without a URL or with an invalid method;
/// else the request goes out.
pub open spec fn spec_send_decision(
    reloading: bool,
    selected: bool,
    status: RequestStatus,
    effective: Option<(Seq<char>, Seq<char>)>,
) -> SendView {
    if reloading {
        SendView::Ignore
    } else if !selected {
        SendView::SelectionRequired
    } else if status == RequestStatus::Sending {
        SendView::Cancel
    } else {
        match effective {
            None => SendView::UrlRequired,
            Some((url, method)) => if trim(url).len() == 0 {
                SendView::UrlRequired
            } else if spec_parse_method(method) is None {
                SendView::InvalidMethod(method)
            } else {
                SendView::Send
            },
        }
    }
}

/// What to do when the user sends the current request; `effective` is its URL and method
/// as it would be sent, when it can be put together.
pub fn send_decision(reloading: bool, selected: bool, status: RequestStatus, effective: Option<(&str, &str)>) -> (r: SendAction)
    ensures
        r@ == spec_send_decision(
            reloading,
            selected,
            status,
            match effective {
                Some((u, m)) => Some((u@, m@)),
                None => None,
            },
        ),
{
    if reloading {
        return SendAction::Ignore;
    }
    if !selected {
        return SendAction::SelectionRequired;
    }
    if status == RequestStatus::Sending {
        return SendAction::Cancel;
    }
    match effective {
        None => SendAction::UrlRequired,
        Some((url, method)) => {
            if trim_str(url).as_str().is_empty() {
                return SendAction::UrlRequired;
            }
            if parse(method).is_none() {
                return SendAction::InvalidMethod(copy_str(method));
            }
            SendAction::Send
        },
    }
}

/// The warning that a send action shows, if it shows one.
pub open spec fn spec_send_notice(a: SendView, text: UiText) -> Option<FeedbackView> {
    match a {
        SendView::SelectionRequired => Some(FeedbackView::Warning(text.text("No request selected"@, "未选择接口"@))),
        SendView::Cancel => Some(FeedbackView::Warning(text.text("Cancelled"@, "已取消"@))),
        SendView::UrlRequired => Some(FeedbackView::Warning(text.text("URL required"@, "地址未设置"@))),
        SendView::InvalidMethod(m) => Some(
            FeedbackView::Warning(text.text("Invalid HTTP method: "@, "无效的 HTTP 方法："@) + m),
        ),
        _ => None,
    }
}

pub fn send_notice(action: &SendAction, text: UiText) -> (r: Option<Feedback>)
    ensures
        match r {
            Some(f) => spec_send_notice(action@, text) == Some(f@),
            None => spec_send_notice(action@, text) is None,
        },
{
    match action {
        SendAction::SelectionRequired => Some(Feedback::Warning(copy_str(text.request_selection_required()))),
        SendAction::Cancel => Some(Feedback::Warning(copy_str(text.request_cancelled()))),
        SendAction::UrlRequired => Some(Feedback::Warning(copy_str(text.request_url_required()))),
        SendAction::InvalidMethod(m) => Some(Feedback::Warning(text.invalid_method(m.as_str()))),
        _ => None,
    }
}

/// A finished operation's result counts only when its request is being sent under that
/// very operation; any other result is stale and dropped.
pub open spec fn spec_accepts_result(active: Option<Seq<char>>, operation_id: Seq<char>) -> bool {
    active == Some(operation_id)
}

pub fn accepts_result(active: Option<&str>, operation_id: &str) -> (r: bool)
    ensures
        r == spec_accepts_result(
            match active {
                Some(a) => Some(a@),
                None => None,
            },
            operation_id@,
        ),
{
    match active {
        Some(a) => eq_str(a, operation_id),
        None => false,
    }
}

/// The feedback of a response: failure from status 400 on, success below.
pub open spec fn spec_response_feedback(status: u16, text: UiText) -> FeedbackView {
    if status >= 400 {
        FeedbackView::Error(text.text("Failed"@, "失败"@))
    } else {
        FeedbackView::Success(text.text("Success"@, "成功"@))
    }
}

pub fn response_feedback(status: u16, text: UiText) -> (r: Feedback)
    ensures
        r@ == spec_response_feedback(status, text),
{
    if status >= 400 {
        Feedback::Error(copy_str(text.request_status_failed()))
    } else {
        Feedback::Success(copy_str(text.request_status_success()))
    }
}

/// The feedback of a failed request: its status's label, as an error.
pub fn failure_feedback(status: RequestStatus, text: UiText) -> (r: Feedback)
    ensures
        r@ == FeedbackView::Error(status.spec_label(text)),
{
    Feedback::Error(copy_str(status.label(text)))
}

/// A response shows as a success exactly when its feedback is one.
pub proof fn law_response_feedback_agrees(status: u16, text: UiText)
    ensures
        (spec_response_feedback(status, text) is Success) == (phase_status(
            RequestPhase::<()>::Received { status, response: () },
        ) == RequestStatus::Success),
{
}

} // verus!
