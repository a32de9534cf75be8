//! Automation scenarios: steps read from a scenario file (select a request, send it, wait
//! for a status or a text, pause, take a screenshot) and the names screenshots get.
use vstd::prelude::*;

use crate::text::{
    chars_of, concat2, decimal, decimal_string, is_ascii_alnum, lower_seq, lowercase, parse_unsigned,
    parse_unsigned_chars, push_chars, push_str, rsplit_once, rsplit_once_char, string_of, trim, trim_char,
    trim_matches, trimmed,
};

verus! {

/// How long a wait step waits when the scenario gives no timeout, in milliseconds.
pub const DEFAULT_WAIT_TIMEOUT_MS: u64 = 20_000;

// ---------------------------------------------------------------------------
// Request selectors
// ---------------------------------------------------------------------------

/// A request named by its file and its position in it: `<path>#<index>`.
#[derive(Debug)]
pub struct RequestSelector {
    pub path: String,
    pub index: usize,
}

impl Clone for RequestSelector {
    fn clone(&self) -> (r: Self)
        ensures
            r.path@ == self.path@,
            r.index == self.index,
    {
        RequestSelector { path: self.path.clone(), index: self.index }
    }
}

/// The selector a text names: split at the last `#`, a path that is not blank and an index.
pub open spec fn selector_spec(raw: Seq<char>) -> Result<(Seq<char>, nat), Seq<char>> {
    match rsplit_once(raw, '#') {
        None => Err("request selector '"@ + raw + "' must be '<path>#<index>'"@),
        Some((path, index)) => if trim(path).len() == 0 {
            Err("request selector path cannot be empty"@)
        } else {
            match parse_unsigned(index, usize::MAX as nat) {
                Some(i) => Ok((path, i)),
                None => Err("invalid request index '"@ + index + "'"@),
            }
        },
    }
}

impl RequestSelector {
    pub fn parse(raw: &str) -> (r: Result<Self, String>)
        ensures
            match r {
                Ok(s) => selector_spec(raw@) == Ok::<(Seq<char>, nat), Seq<char>>((s.path@, s.index as nat)),
                Err(e) => selector_spec(raw@) == Err::<(Seq<char>, nat), Seq<char>>(e@),
            },
    {
        let v = chars_of(raw);
        match rsplit_once_char(&v, '#') {
            None => {
                let mut m = String::from_str("request selector '");
                push_str(&mut m, raw);
                push_str(&mut m, "' must be '<path>#<index>'");
                Err(m)
            },
            Some((path, index)) => {
                let t = trimmed(&path);
                if t.len() == 0 {
                    return Err(String::from_str("request selector path cannot be empty"));
                }
                match parse_unsigned_chars(&index, usize::MAX as u64) {
                    Some(i) => Ok(RequestSelector { path: string_of(&path), index: i as usize }),
                    None => {
                        let mut m = String::from_str("invalid request index '");
                        push_chars(&mut m, &index);
                        push_str(&mut m, "'");
                        Err(m)
                    },
                }
            },
        }
    }
}

// ---------------------------------------------------------------------------
// Raw steps
// ---------------------------------------------------------------------------

/// The value of a step as written in the scenario: text or a whole number.
#[derive(Debug)]
pub enum StepValue {
    Text(String),
    Integer(u64),
}

/// A step as written in the scenario.
#[derive(Debug)]
pub struct RawStep {
    pub action: String,
    pub value: Option<StepValue>,
    pub timeout_ms: Option<u64>,
}

/// The text value of a step, which must not be blank.
pub open spec fn required_string_spec(value: Option<StepValue>, action: Seq<char>) -> Result<Seq<char>, Seq<char>> {
    match value {
        Some(StepValue::Text(t)) => if trim(t@).len() > 0 {
            Ok(t@)
        } else {
            Err("action '"@ + action + "' requires a non-empty value"@)
        },
        Some(StepValue::Integer(n)) => Err("action '"@ + action + "' expects a string value, got "@ + decimal(n as nat)),
        None => Err("action '"@ + action + "' requires a non-empty value"@),
    }
}

/// The numeric value of a step: a number, or text that reads as one.
pub open spec fn required_u64_spec(value: Option<StepValue>, action: Seq<char>) -> Result<nat, Seq<char>> {
    match value {
        Some(StepValue::Integer(n)) => Ok(n as nat),
        Some(StepValue::Text(t)) => match parse_unsigned(t@, u64::MAX as nat) {
            Some(n) => Ok(n),
            None => Err("action '"@ + action + "' value '"@ + t@ + "' is not a valid number"@),
        },
        None => Err("action '"@ + action + "' requires a numeric value"@),
    }
}

fn quoted_action(action: &str, rest: &str) -> (m: String)
    ensures
        m@ == "action '"@ + action@ + rest@,
{
    let mut m = String::from_str("action '");
    push_str(&mut m, action);
    push_str(&mut m, rest);
    m
}

impl RawStep {
    pub fn required_string(&self, action: &str) -> (r: Result<&str, String>)
        ensures
            match r {
                Ok(t) => required_string_spec(self.value, action@) == Ok::<Seq<char>, Seq<char>>(t@),
                Err(e) => required_string_spec(self.value, action@) == Err::<Seq<char>, Seq<char>>(e@),
            },
    {
        match &self.value {
            Some(StepValue::Text(text)) => {
                let t = trimmed(&chars_of(text.as_str()));
                if t.len() > 0 {
                    Ok(text.as_str())
                } else {
                    Err(quoted_action(action, "' requires a non-empty value"))
                }
            },
            Some(StepValue::Integer(number)) => {
                let mut m = quoted_action(action, "' expects a string value, got ");
                let d = decimal_string(*number);
                push_chars(&mut m, &d);
                Err(m)
            },
            None => Err(quoted_action(action, "' requires a non-empty value")),
        }
    }

    pub fn required_u64(&self, action: &str) -> (r: Result<u64, String>)
        ensures
            match r {
                Ok(n) => required_u64_spec(self.value, action@) == Ok::<nat, Seq<char>>(n as nat),
                Err(e) => required_u64_spec(self.value, action@) == Err::<nat, Seq<char>>(e@),
            },
    {
        match &self.value {
            Some(StepValue::Integer(number)) => Ok(*number),
            Some(StepValue::Text(text)) => match parse_unsigned_chars(&chars_of(text.as_str()), u64::MAX) {
                Some(n) => Ok(n),
                None => {
                    let mut m = quoted_action(action, "' value '");
                    push_str(&mut m, text.as_str());
                    push_str(&mut m, "' is not a valid number");
                    Err(m)
                },
            },
            None => Err(quoted_action(action, "' requires a numeric value")),
        }
    }
}

// ---------------------------------------------------------------------------
// Scenario steps
// ---------------------------------------------------------------------------

/// A step of a scenario. Times are in milliseconds.
#[derive(Debug)]
pub enum ScenarioStep {
    SelectRequest { selector: RequestSelector, timeout_ms: u64 },
    Send,
    WaitForStatus { status: u16, timeout_ms: u64 },
    WaitForText { text: String, timeout_ms: u64 },
    WaitForMillis(u64),
    Screenshot { name: String },
}

pub ghost enum StepView {
    SelectRequest { path: Seq<char>, index: nat, timeout_ms: nat },
    Send,
    WaitForStatus { status: nat, timeout_ms: nat },
    WaitForText { text: Seq<char>, timeout_ms: nat },
    WaitForMillis(nat),
    Screenshot { name: Seq<char> },
}

impl View for ScenarioStep {
    type V = StepView;

    open spec fn view(&self) -> StepView {
        match self {
            ScenarioStep::SelectRequest { selector, timeout_ms } => StepView::SelectRequest {
                path: selector.path@,
                index: selector.index as nat,
                timeout_ms: *timeout_ms as nat,
            },
            ScenarioStep::Send => StepView::Send,
            ScenarioStep::WaitForStatus { status, timeout_ms } => StepView::WaitForStatus {
                status: *status as nat,
                timeout_ms: *timeout_ms as nat,
            },
            ScenarioStep::WaitForText { text, timeout_ms } => StepView::WaitForText {
                text: text@,
                timeout_ms: *timeout_ms as nat,
            },
            ScenarioStep::WaitForMillis(ms) => StepView::WaitForMillis(*ms as nat),
            ScenarioStep::Screenshot { name } => StepView::Screenshot { name: name@ },
        }
    }
}

impl Clone for ScenarioStep {
    fn clone(&self) -> (r: Self)
        ensures
            r@ == self@,
    {
        match self {
            ScenarioStep::SelectRequest { selector, timeout_ms } => ScenarioStep::SelectRequest {
                selector: selector.clone(),
                timeout_ms: *timeout_ms,
            },
            ScenarioStep::Send => ScenarioStep::Send,
            ScenarioStep::WaitForStatus { status, timeout_ms } => ScenarioStep::WaitForStatus {
                status: *status,
                timeout_ms: *timeout_ms,
            },
            ScenarioStep::WaitForText { text, timeout_ms } => ScenarioStep::WaitForText {
                text: text.clone(),
                timeout_ms: *timeout_ms,
            },
            ScenarioStep::WaitForMillis(ms) => ScenarioStep::WaitForMillis(*ms),
            ScenarioStep::Screenshot { name } => ScenarioStep::Screenshot { name: name.clone() },
        }
    }
}

/// The step a raw step describes. The action is matched trimmed and in any case; wait
/// steps time out after `timeout_ms`, 20 seconds by default.
pub open spec fn step_spec(action: Seq<char>, value: Option<StepValue>, timeout_ms: Option<u64>) -> Result<StepView, Seq<char>> {
    let timeout = match timeout_ms {
        Some(t) => t as nat,
        None => DEFAULT_WAIT_TIMEOUT_MS as nat,
    };
    let a = lower_seq(trim(action));
    if a == "select_request"@ {
        match required_string_spec(value, "select_request"@) {
            Err(e) => Err(e),
            Ok(v) => match selector_spec(v) {
                Err(e) => Err(e),
                Ok((path, index)) => Ok(StepView::SelectRequest { path, index, timeout_ms: timeout }),
            },
        }
    } else if a == "send"@ {
        Ok(StepView::Send)
    } else if a == "wait_for_status"@ {
        match required_string_spec(value, "wait_for_status"@) {
            Err(e) => Err(e),
            Ok(v) => match parse_unsigned(v, u16::MAX as nat) {
                Some(s) => Ok(StepView::WaitForStatus { status: s, timeout_ms: timeout }),
                None => Err("invalid status code '"@ + v + "'"@),
            },
        }
    } else if a == "wait_for_text"@ {
        match required_string_spec(value, "wait_for_text"@) {
            Err(e) => Err(e),
            Ok(v) => Ok(StepView::WaitForText { text: v, timeout_ms: timeout }),
        }
    } else if a == "wait_for_millis"@ {
        match required_u64_spec(value, "wait_for_millis"@) {
            Err(e) => Err(e),
            Ok(n) => Ok(StepView::WaitForMillis(n)),
        }
    } else if a == "screenshot"@ {
        match required_string_spec(value, "screenshot"@) {
            Err(e) => Err(e),
            Ok(v) => Ok(StepView::Screenshot { name: v }),
        }
    } else {
        Err("unsupported action '"@ + a + "'"@)
    }
}

impl ScenarioStep {
    pub fn from_raw(raw: &RawStep) -> (r: Result<Self, String>)
        ensures
            match r {
                Ok(s) => step_spec(raw.action@, raw.value, raw.timeout_ms) == Ok::<StepView, Seq<char>>(s@),
                Err(e) => step_spec(raw.action@, raw.value, raw.timeout_ms) == Err::<StepView, Seq<char>>(e@),
            },
    {
        let timeout_ms = match raw.timeout_ms {
            Some(t) => t,
            None => DEFAULT_WAIT_TIMEOUT_MS,
        };
        let a = lowercase(&trimmed(&chars_of(raw.action.as_str())));
        let action = string_of(&a);
        let s = action.as_str();
        if crate::text::str_eq(s, "select_request") {
            let value = match raw.required_string("select_request") {
                Ok(v) => v,
                Err(e) => {
                    return Err(e);
                },
            };
            match RequestSelector::parse(value) {
                Ok(selector) => Ok(ScenarioStep::SelectRequest { selector, timeout_ms }),
                Err(e) => Err(e),
            }
        } else if crate::text::str_eq(s, "send") {
            Ok(ScenarioStep::Send)
        } else if crate::text::str_eq(s, "wait_for_status") {
            let value = match raw.required_string("wait_for_status") {
                Ok(v) => v,
                Err(e) => {
                    return Err(e);
                },
            };
            match parse_unsigned_chars(&chars_of(value), u16::MAX as u64) {
                Some(status) => Ok(ScenarioStep::WaitForStatus { status: status as u16, timeout_ms }),
                None => {
                    let mut m = String::from_str("invalid status code '");
                    push_str(&mut m, value);
                    push_str(&mut m, "'");
                    Err(m)
                },
            }
        } else if crate::text::str_eq(s, "wait_for_text") {
            match raw.required_string("wait_for_text") {
                Ok(v) => Ok(ScenarioStep::WaitForText { text: String::from_str(v), timeout_ms }),
                Err(e) => Err(e),
            }
        } else if crate::text::str_eq(s, "wait_for_millis") {
            match raw.required_u64("wait_for_millis") {
                Ok(n) => Ok(ScenarioStep::WaitForMillis(n)),
                Err(e) => Err(e),
            }
        } else if crate::text::str_eq(s, "screenshot") {
            match raw.required_string("screenshot") {
                Ok(v) => Ok(ScenarioStep::Screenshot { name: String::from_str(v) }),
                Err(e) => Err(e),
            }
        } else {
            let mut m = String::from_str("unsupported action '");
            push_str(&mut m, s);
            push_str(&mut m, "'");
            Err(m)
        }
    }
}

// ---------------------------------------------------------------------------
// Screenshots and outcomes
// ---------------------------------------------------------------------------

/// A character of a screenshot name: letters, digits, `-` and `_` are kept, anything else
/// becomes `-`.
pub open spec fn screenshot_char(c: char) -> char {
    if is_ascii_alnum(c) || c == '-' || c == '_' {
        c
    } else {
        '-'
    }
}

/// A screenshot name made safe for a file name: odd characters become `-`, leading and
/// trailing `-` are dropped, and an empty result is `shot`.
pub open spec fn sanitize_spec(name: Seq<char>) -> Seq<char> {
    let t = trim_char(name.map_values(|c: char| screenshot_char(c)), '-');
    if t.len() == 0 {
        "shot"@
    } else {
        t
    }
}

pub fn sanitize_screenshot_name(name: &str) -> (r: String)
    ensures
        r@ == sanitize_spec(name@),
{
    let v = chars_of(name);
    let mut out: Vec<char> = Vec::new();
    let mut i: usize = 0;
    while i < v.len()
        invariant
            i <= v@.len(),
            out@ == v@.take(i as int).map_values(|c: char| screenshot_char(c)),
        decreases v.len() - i,
    {
        let c = v[i];
        if crate::text::is_ascii_alphanumeric(c) || c == '-' || c == '_' {
            out.push(c);
        } else {
            out.push('-');
        }
        assert(v@.take(i + 1).map_values(|c: char| screenshot_char(c)) =~= v@.take(i as int).map_values(
            |c: char| screenshot_char(c),
        ).push(screenshot_char(c)));
        i = i + 1;
    }
    assert(v@.take(v@.len() as int) =~= v@);
    let t = trim_matches(&out, '-');
    if t.len() == 0 {
        String::from_str("shot")
    } else {
        string_of(&t)
    }
}

/// How an automation run ended.
#[derive(Debug)]
pub enum SnapshotOutcome {
    Completed,
    Failed(String),
}

/// The outcome's name in a state snapshot, with the failure reason.
pub fn outcome_details(outcome: &SnapshotOutcome) -> (r: (&'static str, Option<String>))
    ensures
        match outcome {
            SnapshotOutcome::Completed => r.0@ == "completed"@ && r.1 is None,
            SnapshotOutcome::Failed(reason) => r.0@ == "failed"@ && (r.1 matches Some(x) && x@ == reason@),
        },
{
    match outcome {
        SnapshotOutcome::Completed => ("completed", None),
        SnapshotOutcome::Failed(reason) => ("failed", Some(reason.clone())),
    }
}

} // verus!
