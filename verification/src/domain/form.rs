//! The authorization form, as it is filled in, and its validation.
use crate::domain::calendar::{
    are_date_fields, date_of_text, date_text, is_civil_date, lemma_date_accepted_iff_on_calendar,
    CivilDate,
};
use crate::domain::format::{human_date, long_form_fr};
use crate::domain::phone::{dialled, french_prefix, normalized_phone};
use crate::domain::text::{
    char_is_digit, chars_are_blank, chars_of, decimal, ends_with, is_blank,
    lemma_trim_empty_iff_blank, push_char, push_chars, trim,
};
use vstd::prelude::*;

verus! {

/// The legal guardian named on the authorization.
#[derive(Debug, Clone)]
pub struct Responsable {
    pub nom: String,
    pub telephone: Option<String>,
}

/// The hours between which the child may leave, each written `HH:MM`.
/// The form carries them; no rule and no document reads them.
#[derive(Debug, Clone)]
pub struct PlageHoraire {
    pub debut: Option<String>,
    pub fin: Option<String>,
}

/// One request for an exit authorization, as it was filled in. Nothing is
/// checked when a form is built: `validate` says whether it may be used.
#[derive(Debug, Clone)]
pub struct AutorisationForm {
    pub enfant: Enfant,
    /// Day, month and year, written `JJ/MM/AAAA`.
    pub date: String,
    pub lieu: String,
    pub classe: Option<String>,
    pub responsable: Option<Responsable>,
    pub plage_horaire: Option<PlageHoraire>,
    pub motif: Option<String>,
}

/// The child whom the authorization is for.
#[derive(Debug, Clone)]
pub struct Enfant {
    pub nom: String,
    pub prenom: Option<String>,
}

/// The first rule that a form breaks.
#[derive(Debug, Clone, Copy, PartialEq, Eq, Structural)]
pub enum ValidationError {
    /// The child's last name is blank or longer than 80 characters.
    InvalidChildName,
    /// The date is not written day/month/year, or is no day of the calendar.
    InvalidDate,
    /// The place is blank or longer than 80 characters.
    InvalidPlace,
    /// The guardian's telephone number has fewer than 8 characters once
    /// normalized.
    InvalidPhone,
}

/// The characters of an optional text.
pub open spec fn text_of(field: Option<String>) -> Option<Seq<char>> {
    match field {
        Some(s) => Some(s@),
        None => None,
    }
}

/// The characters of an optional text that is borrowed.
pub open spec fn str_text_of(field: Option<&str>) -> Option<Seq<char>> {
    match field {
        Some(s) => Some(s@),
        None => None,
    }
}

/// Model of an [`Enfant`].
pub struct Child {
    pub last_name: Seq<char>,
    pub first_name: Option<Seq<char>>,
}

/// Model of a [`Responsable`].
pub struct Guardian {
    pub name: Seq<char>,
    pub phone: Option<Seq<char>>,
}

/// Model of a [`PlageHoraire`].
pub struct TimeWindow {
    pub start: Option<Seq<char>>,
    pub end: Option<Seq<char>>,
}

/// Model of an [`AutorisationForm`]: each field as the text it holds.
pub struct AuthorizationRequest {
    pub child: Child,
    pub date: Seq<char>,
    pub place: Seq<char>,
    pub class_name: Option<Seq<char>>,
    pub guardian: Option<Guardian>,
    pub time_window: Option<TimeWindow>,
    pub reason: Option<Seq<char>>,
}

impl View for Enfant {
    type V = Child;

    open spec fn view(&self) -> Child {
        Child { last_name: self.nom@, first_name: text_of(self.prenom) }
    }
}

impl View for Responsable {
    type V = Guardian;

    open spec fn view(&self) -> Guardian {
        Guardian { name: self.nom@, phone: text_of(self.telephone) }
    }
}

impl View for PlageHoraire {
    type V = TimeWindow;

    open spec fn view(&self) -> TimeWindow {
        TimeWindow { start: text_of(self.debut), end: text_of(self.fin) }
    }
}

impl View for AutorisationForm {
    type V = AuthorizationRequest;

    open spec fn view(&self) -> AuthorizationRequest {
        AuthorizationRequest {
            child: self.enfant@,
            date: self.date@,
            place: self.lieu@,
            class_name: text_of(self.classe),
            guardian: match self.responsable {
                Some(r) => Some(r@),
                None => None,
            },
            time_window: match self.plage_horaire {
                Some(p) => Some(p@),
                None => None,
            },
            reason: text_of(self.motif),
        }
    }
}

impl Child {
    /// The child's name as the documents print it: the last name, a space,
    /// and the first name if there is one.
    pub open spec fn full_name(self) -> Seq<char> {
        self.last_name + " "@ + match self.first_name {
            Some(name) => name,
            None => Seq::empty(),
        }
    }
}

impl Enfant {
    /// The child's name as the documents print it.
    pub fn full_name(&self) -> (name: String)
        ensures
            name@ == self@.full_name(),
    {
        let mut name = String::new();
        name.append(self.nom.as_str());
        name.append(" ");
        if let Some(prenom) = &self.prenom {
            name.append(prenom.as_str());
        }
        assert(name@ =~= self@.full_name());
        name
    }
}

/// The longest that a name or a place may be, in characters.
pub const MAX_NAME_CHARS: usize = 80;

/// The shortest that a normalized telephone number may be, in characters.
pub const MIN_PHONE_CHARS: usize = 8;

/// Whether `s` can stand as a name or a place: something is left of it once
/// trimmed, and it has at most `MAX_NAME_CHARS` characters, white space
/// counted.
pub open spec fn is_name(s: Seq<char>) -> bool {
    trim(s).len() > 0 && s.len() <= MAX_NAME_CHARS
}

/// Whether `s` can stand as a telephone number: its normal form has at
/// least `MIN_PHONE_CHARS` characters.
pub open spec fn is_phone(s: Seq<char>) -> bool {
    normalized_phone(s).len() >= MIN_PHONE_CHARS
}

impl AuthorizationRequest {
    /// The first rule that the request breaks, in the order in which they
    /// are checked: the child's last name, the date, the place, and the
    /// guardian's telephone number where there is one.
    pub open spec fn first_fault(self) -> Option<ValidationError> {
        if !is_name(self.child.last_name) {
            Some(ValidationError::InvalidChildName)
        } else if date_of_text(self.date) is None {
            Some(ValidationError::InvalidDate)
        } else if !is_name(self.place) {
            Some(ValidationError::InvalidPlace)
        } else if self.guardian matches Some(g) && g.phone matches Some(p) && !is_phone(p) {
            Some(ValidationError::InvalidPhone)
        } else {
            None
        }
    }

    /// Whether the request breaks no rule.
    pub open spec fn is_valid(self) -> bool {
        self.first_fault() is None
    }
}

/// The child's last name is the first thing checked: a request is refused
/// for it exactly when the name is empty, or all white space, or longer
/// than `MAX_NAME_CHARS` characters.
pub proof fn lemma_child_name_is_checked(request: AuthorizationRequest)
    ensures
        request.first_fault() == Some(ValidationError::InvalidChildName) <==> (is_blank(
            request.child.last_name,
        ) || request.child.last_name.len() > MAX_NAME_CHARS),
        request.child.last_name.len() == 0 ==> request.first_fault() == Some(
            ValidationError::InvalidChildName,
        ),
{
    lemma_trim_empty_iff_blank(request.child.last_name);
}

/// A request with a good last name, and a date written as a date is
/// written, is refused for its date exactly when the numbers are no day of
/// the Gregorian calendar.
pub proof fn lemma_date_is_checked(
    request: AuthorizationRequest,
    day: Seq<char>,
    month: Seq<char>,
    year: Seq<char>,
)
    requires
        is_name(request.child.last_name),
        are_date_fields(day, month, year),
        request.date == date_text(day, month, year),
    ensures
        request.first_fault() == Some(ValidationError::InvalidDate) <==> !is_civil_date(
            decimal(year) as int,
            decimal(month) as int,
            decimal(day) as int,
        ),
{
    lemma_date_accepted_iff_on_calendar(day, month, year);
}

/// The date of a valid request names a day of the calendar, and is written
/// out in long form wherever it is shown to a reader.
pub proof fn lemma_valid_date_is_written_out(request: AuthorizationRequest)
    requires
        request.is_valid(),
    ensures
        date_of_text(request.date) is Some,
        human_date(request.date) == long_form_fr(date_of_text(request.date)->0),
{
}

/// Whether `s` can stand as a name or a place.
pub fn check_name(s: &str) -> (ok: bool)
    ensures
        ok == is_name(s@),
{
    let chars = chars_of(s);
    chars.len() <= MAX_NAME_CHARS && !chars_are_blank(&chars)
}

impl AutorisationForm {
    /// Checks the form against its rules, one after the other, and names
    /// the first that it breaks.
    pub fn validate(&self) -> (checked: Result<(), ValidationError>)
        ensures
            checked is Ok <==> self@.is_valid(),
            checked == match self@.first_fault() {
                Some(fault) => Err::<(), ValidationError>(fault),
                None => Ok(()),
            },
    {
        if !check_name(self.enfant.nom.as_str()) {
            return Err(ValidationError::InvalidChildName);
        }
        match Self::check_date_format(self.date.as_str()) {
            Ok(()) => {},
            Err(_) => {
                return Err(ValidationError::InvalidDate);
            },
        }
        if !check_name(self.lieu.as_str()) {
            return Err(ValidationError::InvalidPlace);
        }
        if let Some(resp) = &self.responsable {
            if let Some(tel) = &resp.telephone {
                match Self::normalize_fr_phone(tel.as_str()) {
                    Ok(normalized) => {
                        if normalized.as_str().unicode_len() < MIN_PHONE_CHARS {
                            return Err(ValidationError::InvalidPhone);
                        }
                    },
                    Err(_) => {
                        return Err(ValidationError::InvalidPhone);
                    },
                }
            }
        }
        Ok(())
    }

    /// Accepts a date written as day, month and year with `/` between
    /// them, if it is a day of the calendar.
    pub fn check_date_format(s: &str) -> (checked: Result<(), ValidationError>)
        ensures
            checked is Ok <==> date_of_text(s@) is Some,
            checked is Err ==> checked == Err::<(), ValidationError>(ValidationError::InvalidDate),
    {
        match CivilDate::parse(s) {
            Some(_) => Ok(()),
            None => Err(ValidationError::InvalidDate),
        }
    }

    /// Brings a telephone number to its normal form. Every text has one.
    pub fn normalize_fr_phone(s: &str) -> (normalized: Result<String, ValidationError>)
        ensures
            normalized is Ok,
            normalized->Ok_0@ == normalized_phone(s@),
    {
        let chars = chars_of(s);
        let mut kept: Vec<char> = Vec::new();
        let mut i: usize = 0;
        assert(chars@.take(0) =~= Seq::empty());
        while i < chars.len()
            invariant
                0 <= i <= chars.len(),
                kept@ == dialled(chars@.take(i as int)),
            decreases chars.len() - i,
        {
            let c = chars[i];
            assert(chars@.take(i + 1).drop_last() == chars@.take(i as int));
            if char_is_digit(c) || (c == '+' && kept.len() == 0) {
                kept.push(c);
            }
            i += 1;
        }
        assert(chars@.take(chars.len() as int) == chars@);
        let mut out = String::new();
        if kept.len() > 0 && kept[0] == '0' {
            push_char(&mut out, '+');
            push_char(&mut out, '3');
            push_char(&mut out, '3');
            assert(out@ =~= french_prefix());
            push_chars(&mut out, &kept, 1);
        } else {
            push_chars(&mut out, &kept, 0);
            assert(out@ =~= kept@);
        }
        Ok(out)
    }
}

impl ValidationError {
    /// The fault in words.
    pub fn message(&self) -> (text: &'static str)
        ensures
            text@ == match *self {
                ValidationError::InvalidChildName => "Nom de l'enfant absent ou trop long"@,
                ValidationError::InvalidDate => "date invalid"@,
                ValidationError::InvalidPlace => "Lieu absent ou trop long"@,
                ValidationError::InvalidPhone => "telephone trop court après normalisation"@,
            },
    {
        match self {
            ValidationError::InvalidChildName => "Nom de l'enfant absent ou trop long",
            ValidationError::InvalidDate => "date invalid",
            ValidationError::InvalidPlace => "Lieu absent ou trop long",
            ValidationError::InvalidPhone => "telephone trop court après normalisation",
        }
    }
}

/// A format in which a form can be written to a file.
#[derive(Debug, Clone, Copy, PartialEq, Eq, Structural)]
pub enum InputFormat {
    Json,
    Yaml,
}

/// The formats in which the file at `path` may be written, in the order in
/// which to try them.
pub open spec fn formats_of_path(path: Seq<char>) -> Seq<InputFormat> {
    if ".json"@.is_suffix_of(path) {
        seq![InputFormat::Json]
    } else {
        seq![InputFormat::Yaml, InputFormat::Json]
    }
}

/// What was answered to the questions of the form, one text for each; an
/// empty text where nothing was answered.
#[derive(Debug, Clone)]
pub struct Answers {
    pub enfant_nom: String,
    pub enfant_prenom: String,
    pub date: String,
    pub lieu: String,
    pub classe: String,
    pub responsable_nom: String,
    pub responsable_tel: String,
    pub motif: String,
}

/// An answer as an optional field: absent where the answer is empty.
pub open spec fn answered(answer: Seq<char>) -> Option<Seq<char>> {
    if answer.len() == 0 {
        None
    } else {
        Some(answer)
    }
}

impl Answers {
    /// The request that the answers make: an optional field is there where
    /// its answer is not empty, and a guardian where the name or the
    /// telephone number is given. No hours are asked for.
    pub open spec fn request(self) -> AuthorizationRequest {
        AuthorizationRequest {
            child: Child { last_name: self.enfant_nom@, first_name: answered(self.enfant_prenom@) },
            date: self.date@,
            place: self.lieu@,
            class_name: answered(self.classe@),
            guardian: if self.responsable_nom@.len() == 0 && self.responsable_tel@.len() == 0 {
                None
            } else {
                Some(
                    Guardian {
                        name: self.responsable_nom@,
                        phone: answered(self.responsable_tel@),
                    },
                )
            },
            time_window: None,
            reason: answered(self.motif@),
        }
    }
}

/// An answer as an optional field.
fn optional(answer: String) -> (field: Option<String>)
    ensures
        text_of(field) == answered(answer@),
{
    if answer.as_str().is_empty() {
        None
    } else {
        Some(answer)
    }
}

impl AutorisationForm {
    /// The formats in which to read the file at `path`, in the order in
    /// which to try them: JSON alone for a name that ends in `.json`, else
    /// YAML and then JSON.
    pub fn formats_for(path: &str) -> (formats: Vec<InputFormat>)
        ensures
            formats@ == formats_of_path(path@),
    {
        let mut formats: Vec<InputFormat> = Vec::new();
        if !ends_with(path, ".json") {
            formats.push(InputFormat::Yaml);
        }
        formats.push(InputFormat::Json);
        assert(formats@ =~= formats_of_path(path@));
        formats
    }

    /// Builds the form from the answers to its questions.
    pub fn from_answers(answers: Answers) -> (form: AutorisationForm)
        ensures
            form@ == answers.request(),
    {
        let no_guardian = answers.responsable_nom.as_str().is_empty()
            && answers.responsable_tel.as_str().is_empty();
        let responsable = if no_guardian {
            None
        } else {
            Some(
                Responsable {
                    nom: answers.responsable_nom,
                    telephone: optional(answers.responsable_tel),
                },
            )
        };
        AutorisationForm {
            enfant: Enfant { nom: answers.enfant_nom, prenom: optional(answers.enfant_prenom) },
            date: answers.date,
            lieu: answers.lieu,
            classe: optional(answers.classe),
            responsable,
            plage_horaire: None,
            motif: optional(answers.motif),
        }
    }
}

} // verus!
