//! Asking the user for what the helpers did not supply.
use crate::protocol::context::{Context, ContextView};
use crate::protocol::{Error, ErrorView};
use vstd::prelude::*;

verus! {

/// How the user is asked.
#[derive(Debug, Clone, Copy, PartialEq, Eq)]
pub enum Mode {
    /// What the user types is shown.
    Visible,
    /// What the user types is not shown, as befits a secret.
    Hidden,
    /// The user is not asked at all.
    Disabled,
}

/// A field that the user can be asked for.
#[derive(Debug, Clone, Copy, PartialEq, Eq)]
pub enum Field {
    Username,
    Password,
}

/// What asking the user came to: the text typed, or why there is none.
pub type Answer = Result<String, String>;

/// The view of an [`Answer`].
pub type AnswerView = Result<Seq<char>, Seq<char>>;

/// The view of what asking the user came to.
pub open spec fn answer_view(answer: Answer) -> AnswerView {
    match answer {
        Ok(text) => Ok(text@),
        Err(cause) => Err(cause@),
    }
}

impl Mode {
    /// Whether the user is not to be asked.
    pub fn is_disabled(&self) -> (b: bool)
        ensures
            b == (*self == Mode::Disabled),
    {
        match self {
            Mode::Disabled => true,
            _ => false,
        }
    }
}

impl Field {
    /// The name of the field as the user reads it.
    pub open spec fn label(self) -> Seq<char> {
        match self {
            Field::Username => "Username"@,
            Field::Password => "Password"@,
        }
    }

    /// How the field is asked for: a name openly, a secret hidden.
    pub open spec fn spec_mode(&self) -> Mode {
        match *self {
            Field::Username => Mode::Visible,
            Field::Password => Mode::Hidden,
        }
    }

    /// The name of the field as the user reads it.
    pub fn name(&self) -> (r: &'static str)
        ensures
            r@ == self.label(),
    {
        match self {
            Field::Username => "Username",
            Field::Password => "Password",
        }
    }

    /// How the field is asked for: a name openly, a secret hidden.
    #[verifier::when_used_as_spec(spec_mode)]
    pub fn mode(&self) -> (r: Mode)
        ensures
            r == self.spec_mode(),
    {
        match self {
            Field::Username => Mode::Visible,
            Field::Password => Mode::Hidden,
        }
    }
}

impl ContextView {
    /// Whether `field` is absent.
    pub open spec fn lacks(self, field: Field) -> bool {
        match field {
            Field::Username => self.username is None,
            Field::Password => self.password is None,
        }
    }

    /// The record with `field` set to `text`.
    pub open spec fn with_field(self, field: Field, text: Seq<char>) -> ContextView {
        match field {
            Field::Username => ContextView { username: Some(text), ..self },
            Field::Password => ContextView { password: Some(text), ..self },
        }
    }

    /// The record after the user was asked for `field`, and the error where
    /// asking failed: it names the text that was shown, and the cause.
    pub open spec fn answered(self, field: Field, answer: AnswerView) -> (
        ContextView,
        Option<ErrorView>,
    ) {
        match answer {
            Ok(text) => (self.with_field(field, text), None),
            Err(cause) => (
                self,
                Some(ErrorView::Prompt { prompt: self.prompt(field.label()), cause }),
            ),
        }
    }
}

/// The view of what a step leaves behind besides the record: an error, or none.
pub open spec fn opt_error(r: Result<(), Error>) -> Option<ErrorView> {
    match r {
        Ok(_) => None,
        Err(e) => Some(e@),
    }
}

impl Context {
    /// Whether `field` is absent.
    pub fn lacks(&self, field: Field) -> (b: bool)
        ensures
            b == self@.lacks(field),
    {
        match field {
            Field::Username => self.username.is_none(),
            Field::Password => self.password.is_none(),
        }
    }

    /// Takes in what asking the user for `field` came to. Text that was typed
    /// becomes the field. A failure leaves the record as it is and becomes an
    /// error that names the text shown to the user and the cause.
    pub fn answer(&mut self, field: Field, answer: Answer) -> (r: Result<(), Error>)
        ensures
            (final(self)@, opt_error(r)) == old(self)@.answered(field, answer_view(answer)),
    {
        match answer {
            Ok(text) => {
                match field {
                    Field::Username => {
                        self.username = Some(text);
                    },
                    Field::Password => {
                        self.password = Some(text);
                    },
                }
                Ok(())
            },
            Err(cause) => Err(Error::Prompt { prompt: self.to_prompt(field.name()), cause }),
        }
    }
}

} // verus!
