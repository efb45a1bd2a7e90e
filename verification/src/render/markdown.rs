//! The authorization as a Markdown text.
use crate::domain::form::{
    str_text_of, text_of, AuthorizationRequest, AutorisationForm, Guardian,
};
use crate::domain::format::{human_date, human_date_fr};
use crate::render::RenderError;
use vstd::prelude::*;

verus! {

/// A label, what it labels, and the blank line that ends the paragraph.
pub open spec fn labelled(label: Seq<char>, value: Seq<char>) -> Seq<char> {
    label + value + "\n\n"@
}

/// The paragraph of a field that may be absent: nothing where it is.
pub open spec fn labelled_if_any(label: Seq<char>, value: Option<Seq<char>>) -> Seq<char> {
    match value {
        Some(v) => labelled(label, v),
        None => Seq::empty(),
    }
}

/// The guardian's paragraphs: the name, then the telephone number if there
/// is one.
pub open spec fn guardian_paragraphs(guardian: Option<Guardian>) -> Seq<char> {
    match guardian {
        Some(g) => {
            labelled("**Responsable légal :** "@, g.name)
                + labelled_if_any("**Tél :** "@, g.phone)
        },
        None => Seq::empty(),
    }
}

/// The paragraph that gives the reason, where one is given.
pub open spec fn reason_paragraph(reason: Option<Seq<char>>) -> Seq<char> {
    labelled_if_any("**Motif :** "@, reason)
}

/// The lines that end the document, left blank for place, day and
/// signature.
pub open spec fn signature_block() -> Seq<char> {
    "\n\nFait à ____, le ____\n\n\nSignature du responsable légal : ___________________\n"@
}

/// The document down to the guardian: the school's heading if a school is
/// named, the title, then child, date, place, class and guardian, each in
/// a paragraph of its own.
pub open spec fn markdown_head(
    request: AuthorizationRequest,
    school: Option<Seq<char>>,
) -> Seq<char> {
    labelled_if_any("# "@, school)
        + "## Autorisation de sortie\n\n"@
        + labelled("**Enfant :** "@, request.child.full_name())
        + labelled("**Date :** "@, human_date(request.date))
        + labelled("**Lieu :** "@, request.place)
        + labelled_if_any("**Classe :** "@, request.class_name)
        + guardian_paragraphs(request.guardian)
}

/// The whole document: the head, the reason if one is given, and the
/// signature block. The fields stand in it as they were filled in.
pub open spec fn markdown_text(
    request: AuthorizationRequest,
    school: Option<Seq<char>>,
) -> Seq<char> {
    markdown_head(request, school) + reason_paragraph(request.reason) + signature_block()
}

/// A document without a reason goes from the head straight to the
/// signature block. With a reason it holds one paragraph more, the reason
/// under its label, between the two; nothing else differs.
pub proof fn lemma_reason_paragraph(
    request: AuthorizationRequest,
    school: Option<Seq<char>>,
    reason: Seq<char>,
)
    ensures
        markdown_text(AuthorizationRequest { reason: None, ..request }, school)
            == markdown_head(request, school) + signature_block(),
        markdown_text(AuthorizationRequest { reason: Some(reason), ..request }, school)
            == markdown_head(request, school)
            + ("**Motif :** "@ + reason + "\n\n"@)
            + signature_block(),
{
}

/// Appends a label, what it labels, and a blank line.
fn push_labelled(out: &mut String, label: &str, value: &str)
    ensures
        final(out)@ == old(out)@ + labelled(label@, value@),
{
    out.append(label);
    out.append(value);
    out.append("\n\n");
    assert(out@ =~= old(out)@ + labelled(label@, value@));
}

/// Appends the paragraph of a field that may be absent.
fn push_labelled_if_any(out: &mut String, label: &str, value: &Option<String>)
    ensures
        final(out)@ == old(out)@ + labelled_if_any(label@, text_of(*value)),
{
    match value {
        Some(v) => push_labelled(out, label, v.as_str()),
        None => {
            assert(out@ =~= old(out)@ + Seq::<char>::empty());
        },
    }
}

/// Renders the form as a Markdown text, under the school's name where one
/// is given.
pub fn render_markdown(
    form: &AutorisationForm,
    school_name: Option<&str>,
) -> (rendered: Result<String, RenderError>)
    ensures
        rendered is Ok,
        rendered->Ok_0@ == markdown_text(form@, str_text_of(school_name)),
{
    let mut s = String::new();
    if let Some(school) = school_name {
        push_labelled(&mut s, "# ", school);
    }
    assert(s@ =~= labelled_if_any("# "@, str_text_of(school_name)));
    s.append("## Autorisation de sortie\n\n");
    let child = form.enfant.full_name();
    push_labelled(&mut s, "**Enfant :** ", child.as_str());
    let date = human_date_fr(form.date.as_str());
    push_labelled(&mut s, "**Date :** ", date.as_str());
    push_labelled(&mut s, "**Lieu :** ", form.lieu.as_str());
    push_labelled_if_any(&mut s, "**Classe :** ", &form.classe);
    let ghost before_guardian = s@;
    if let Some(resp) = &form.responsable {
        push_labelled(&mut s, "**Responsable légal :** ", resp.nom.as_str());
        push_labelled_if_any(&mut s, "**Tél :** ", &resp.telephone);
    }
    assert(s@ =~= before_guardian + guardian_paragraphs(form@.guardian));
    assert(s@ =~= markdown_head(form@, str_text_of(school_name)));
    push_labelled_if_any(&mut s, "**Motif :** ", &form.motif);
    s.append("\n\nFait à ____, le ____\n\n\nSignature du responsable légal : ___________________\n");
    Ok(s)
}

} // verus!
