//! Values and checks for the prompt templates of goals and auto-review.

use crate::text::{owned, push_char, push_signed_decimal, push_str, signed_decimal, str_eq};
use vstd::prelude::*;

verus! {

/// The placeholders that goal prompt templates may use.
pub open spec fn goal_placeholder(name: Seq<char>) -> bool {
    name == "objective"@ || name == "tokens_used"@ || name == "token_budget"@ || name
        == "remaining_tokens"@ || name == "time_used_seconds"@
}

/// A goal that a thread pursues, with its usage so far.
#[derive(Clone, Debug, PartialEq, Eq)]
pub struct ThreadGoal {
    pub objective: String,
    pub tokens_used: i64,
    pub token_budget: Option<i64>,
    pub time_used_seconds: i64,
}

/// Why a prompt template is refused.
#[derive(Clone, Debug, PartialEq, Eq)]
pub enum GoalPromptTemplateError {
    /// The template does not parse; the parser's message.
    Parse(String),
    UnknownPlaceholder { name: String },
}

impl GoalPromptTemplateError {
    pub open spec fn spec_message(&self) -> Seq<char> {
        match self {
            GoalPromptTemplateError::Parse(m) => m@,
            GoalPromptTemplateError::UnknownPlaceholder { name } => "goal prompt template contains unknown placeholder `"@
                + name@ + "`"@,
        }
    }

    /// The error's text.
    pub fn message(&self) -> (m: String)
        ensures
            m@ == self.spec_message(),
    {
        match self {
            GoalPromptTemplateError::Parse(m) => m.clone(),
            GoalPromptTemplateError::UnknownPlaceholder { name } => {
                let mut m = owned("goal prompt template contains unknown placeholder `");
                push_str(&mut m, name.as_str());
                push_str(&mut m, "`");
                m
            },
        }
    }
}

/// Why an auto-review prompt template is refused.
#[derive(Clone, Debug, PartialEq, Eq)]
pub enum AutoReviewPromptTemplateError {
    /// The template does not parse; the parser's message.
    Parse(String),
    UnknownPlaceholder { name: String },
}

impl AutoReviewPromptTemplateError {
    pub open spec fn spec_message(&self) -> Seq<char> {
        match self {
            AutoReviewPromptTemplateError::Parse(m) => m@,
            AutoReviewPromptTemplateError::UnknownPlaceholder { name } => "auto-review prompt template contains unknown placeholder `"@
                + name@ + "`"@,
        }
    }

    /// The error's text.
    pub fn message(&self) -> (m: String)
        ensures
            m@ == self.spec_message(),
    {
        match self {
            AutoReviewPromptTemplateError::Parse(m) => m.clone(),
            AutoReviewPromptTemplateError::UnknownPlaceholder { name } => {
                let mut m = owned("auto-review prompt template contains unknown placeholder `");
                push_str(&mut m, name.as_str());
                push_str(&mut m, "`");
                m
            },
        }
    }
}

/// The index of the first placeholder that is not allowed.
pub open spec fn first_unknown(placeholders: Seq<String>, k: int) -> Option<int>
    decreases placeholders.len() - k,
{
    if k >= placeholders.len() || k < 0 {
        None
    } else if !goal_placeholder(placeholders[k]@) {
        Some(k)
    } else {
        first_unknown(placeholders, k + 1)
    }
}

fn is_goal_placeholder(name: &str) -> (b: bool)
    ensures
        b == goal_placeholder(name@),
{
    str_eq(name, "objective") || str_eq(name, "tokens_used") || str_eq(name, "token_budget")
        || str_eq(name, "remaining_tokens") || str_eq(name, "time_used_seconds")
}

/// Checks the placeholders of a goal prompt template, in order: the first
/// that is not a goal value is refused.
pub fn check_goal_placeholders(placeholders: &[String]) -> (r: Result<(), GoalPromptTemplateError>)
    ensures
        match first_unknown(placeholders@, 0) {
            Some(k) => r matches Err(GoalPromptTemplateError::UnknownPlaceholder { name }) && name@
                == placeholders@[k]@,
            None => r is Ok,
        },
{
    let mut i: usize = 0;
    while i < placeholders.len()
        invariant
            i <= placeholders@.len(),
            first_unknown(placeholders@, 0) == first_unknown(placeholders@, i as int),
        decreases placeholders@.len() - i,
    {
        if !is_goal_placeholder(placeholders[i].as_str()) {
            return Err(GoalPromptTemplateError::UnknownPlaceholder { name: placeholders[i].clone() });
        }
        i = i + 1;
    }
    Ok(())
}

/// Checks the placeholders of an auto-review prompt template: it may have none.
pub fn check_auto_review_placeholders(placeholders: &[String]) -> (r: Result<
    (),
    AutoReviewPromptTemplateError,
>)
    ensures
        placeholders@.len() == 0 ==> r is Ok,
        placeholders@.len() > 0 ==> (r matches Err(
            AutoReviewPromptTemplateError::UnknownPlaceholder { name },
        ) && name@ == placeholders@[0]@),
{
    if placeholders.len() > 0 {
        Err(AutoReviewPromptTemplateError::UnknownPlaceholder { name: placeholders[0].clone() })
    } else {
        Ok(())
    }
}

/// Text with `&`, `<` and `>` written as XML entities.
pub open spec fn escape_xml(s: Seq<char>) -> Seq<char>
    decreases s.len(),
{
    if s.len() == 0 {
        Seq::empty()
    } else {
        escape_xml(s.drop_last()) + if s.last() == '&' {
            "&amp;"@
        } else if s.last() == '<' {
            "&lt;"@
        } else if s.last() == '>' {
            "&gt;"@
        } else {
            seq![s.last()]
        }
    }
}

/// Escapes text for an XML text node.
pub fn escape_xml_text(input: &str) -> (r: String)
    ensures
        r@ == escape_xml(input@),
{
    let n = input.unicode_len();
    let mut r = String::new();
    let mut i: usize = 0;
    while i < n
        invariant
            n == input@.len(),
            i <= n,
            r@ == escape_xml(input@.subrange(0, i as int)),
        decreases n - i,
    {
        let c = input.get_char(i);
        proof {
            let sub = input@.subrange(0, i + 1);
            assert(sub.drop_last() =~= input@.subrange(0, i as int));
            assert(sub.last() == c);
        }
        if c == '&' {
            push_str(&mut r, "&amp;");
        } else if c == '<' {
            push_str(&mut r, "&lt;");
        } else if c == '>' {
            push_str(&mut r, "&gt;");
        } else {
            push_char(&mut r, c);
        }
        i = i + 1;
    }
    assert(input@.subrange(0, n as int) =~= input@);
    r
}

/// The values that goal prompt placeholders stand for.
pub struct GoalPromptValues {
    pub objective: String,
    pub tokens_used: String,
    pub token_budget: String,
    pub remaining_tokens: String,
    pub time_used_seconds: String,
}

impl GoalPromptValues {
    /// The values for a goal: the objective escaped for XML, the counts in
    /// decimal, the budget or `none`, and what remains of it (never below 0)
    /// or `unbounded`.
    pub fn new(goal: &ThreadGoal) -> (v: GoalPromptValues)
        requires
            goal.token_budget matches Some(b) ==> i64::MIN <= b - goal.tokens_used <= i64::MAX,
        ensures
            v.objective@ == escape_xml(goal.objective@),
            v.tokens_used@ == signed_decimal(goal.tokens_used as int),
            v.time_used_seconds@ == signed_decimal(goal.time_used_seconds as int),
            v.token_budget@ == match goal.token_budget {
                Some(b) => signed_decimal(b as int),
                None => "none"@,
            },
            v.remaining_tokens@ == match goal.token_budget {
                Some(b) => signed_decimal(
                    if b - goal.tokens_used > 0 {
                        b - goal.tokens_used
                    } else {
                        0
                    },
                ),
                None => "unbounded"@,
            },
    {
        let (token_budget, remaining_tokens) = match goal.token_budget {
            Some(budget) => {
                let mut b = String::new();
                push_signed_decimal(&mut b, budget);
                let left = budget - goal.tokens_used;
                let mut r = String::new();
                push_signed_decimal(
                    &mut r,
                    if left > 0 {
                        left
                    } else {
                        0
                    },
                );
                proof {
                    assert(b@ =~= signed_decimal(budget as int));
                }
                (b, r)
            },
            None => (owned("none"), owned("unbounded")),
        };
        let mut tokens_used = String::new();
        push_signed_decimal(&mut tokens_used, goal.tokens_used);
        let mut time_used_seconds = String::new();
        push_signed_decimal(&mut time_used_seconds, goal.time_used_seconds);
        assert(tokens_used@ =~= signed_decimal(goal.tokens_used as int));
        assert(time_used_seconds@ =~= signed_decimal(goal.time_used_seconds as int));
        GoalPromptValues {
            objective: escape_xml_text(goal.objective.as_str()),
            tokens_used,
            token_budget,
            remaining_tokens,
            time_used_seconds,
        }
    }

    /// The value a goal placeholder stands for.
    pub fn value_for(&self, placeholder: &str) -> (r: &str)
        requires
            goal_placeholder(placeholder@),
        ensures
            placeholder@ == "objective"@ ==> r@ == self.objective@,
            placeholder@ == "tokens_used"@ ==> r@ == self.tokens_used@,
            placeholder@ == "token_budget"@ ==> r@ == self.token_budget@,
            placeholder@ == "remaining_tokens"@ ==> r@ == self.remaining_tokens@,
            placeholder@ == "time_used_seconds"@ ==> r@ == self.time_used_seconds@,
    {
        proof {
            reveal_strlit("objective");
            reveal_strlit("tokens_used");
            reveal_strlit("token_budget");
            reveal_strlit("remaining_tokens");
            reveal_strlit("time_used_seconds");
            assert("objective"@.len() == 9);
            assert("tokens_used"@.len() == 11);
            assert("token_budget"@.len() == 12);
            assert("remaining_tokens"@.len() == 16);
            assert("time_used_seconds"@.len() == 17);
        }
        if str_eq(placeholder, "objective") {
            self.objective.as_str()
        } else if str_eq(placeholder, "tokens_used") {
            self.tokens_used.as_str()
        } else if str_eq(placeholder, "token_budget") {
            self.token_budget.as_str()
        } else if str_eq(placeholder, "remaining_tokens") {
            self.remaining_tokens.as_str()
        } else {
            self.time_used_seconds.as_str()
        }
    }
}

} // verus!
