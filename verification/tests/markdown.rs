use autorisation::domain::form::{AutorisationForm, Enfant, Responsable};
use autorisation::render::markdown::render_markdown;

fn dupont() -> AutorisationForm {
    AutorisationForm {
        enfant: Enfant {
            nom: "Dupont".into(),
            prenom: Some("Jean".into()),
        },
        date: "25/09/2025".into(),
        lieu: "Rennes".into(),
        classe: Some("CM1".into()),
        responsable: None,
        plage_horaire: None,
        motif: None,
    }
}

const SIGNATURE: &str =
    "\n\nFait à ____, le ____\n\n\nSignature du responsable légal : ___________________\n";

#[test]
fn end_to_end() {
    let f = dupont();
    assert!(f.validate().is_ok());
    let md = render_markdown(&f, None).expect("a text");
    assert!(md.contains("Dupont Jean"));
    assert!(md.contains("25 septembre 2025"));
}

#[test]
fn whole_text_without_school() {
    let md = render_markdown(&dupont(), None).expect("a text");
    let expected = format!(
        "{}{}{}{}{}{}",
        "## Autorisation de sortie\n\n",
        "**Enfant :** Dupont Jean\n\n",
        "**Date :** 25 septembre 2025\n\n",
        "**Lieu :** Rennes\n\n",
        "**Classe :** CM1\n\n",
        SIGNATURE
    );
    assert_eq!(md, expected);
}

#[test]
fn whole_text_with_every_field() {
    let mut f = dupont();
    f.responsable = Some(Responsable {
        nom: "Marie Dupont".into(),
        telephone: Some("06 12 34 56 78".into()),
    });
    f.motif = Some("Rendez-vous médical".into());
    let md = render_markdown(&f, Some("École Jules Ferry")).expect("a text");
    let expected = format!(
        "{}{}{}{}{}{}{}{}{}{}",
        "# École Jules Ferry\n\n",
        "## Autorisation de sortie\n\n",
        "**Enfant :** Dupont Jean\n\n",
        "**Date :** 25 septembre 2025\n\n",
        "**Lieu :** Rennes\n\n",
        "**Classe :** CM1\n\n",
        "**Responsable légal :** Marie Dupont\n\n",
        "**Tél :** 06 12 34 56 78\n\n",
        "**Motif :** Rendez-vous médical\n\n",
        SIGNATURE
    );
    assert_eq!(md, expected);
}

#[test]
fn bare_form() {
    let f = AutorisationForm {
        enfant: Enfant {
            nom: "Izi".into(),
            prenom: None,
        },
        date: "1/1/2025".into(),
        lieu: "Chez moi".into(),
        classe: None,
        responsable: Some(Responsable {
            nom: "R".into(),
            telephone: None,
        }),
        plage_horaire: None,
        motif: None,
    };
    let md = render_markdown(&f, Some("")).expect("a text");
    let expected = format!(
        "{}{}{}{}{}{}{}",
        "# \n\n",
        "## Autorisation de sortie\n\n",
        "**Enfant :** Izi \n\n",
        "**Date :** 01 janvier 2025\n\n",
        "**Lieu :** Chez moi\n\n",
        "**Responsable légal :** R\n\n",
        SIGNATURE
    );
    assert_eq!(md, expected);
}

#[test]
fn no_reason_no_paragraph() {
    let md = render_markdown(&dupont(), None).expect("a text");
    assert!(!md.contains("Motif"));
}

#[test]
fn one_paragraph_for_the_reason() {
    let mut f = dupont();
    let without = render_markdown(&f, Some("École")).expect("a text");
    f.motif = Some("x".into());
    let with = render_markdown(&f, Some("École")).expect("a text");
    assert_eq!(with.matches("**Motif :** x\n\n").count(), 1);
    assert_eq!(with.matches("Motif").count(), 1);
    let head = without.strip_suffix(SIGNATURE).expect("the signature block");
    assert_eq!(with, format!("{}**Motif :** x\n\n{}", head, SIGNATURE));
}

#[test]
fn fields_are_not_escaped() {
    let mut f = dupont();
    f.lieu = "**Rennes** _centre_".into();
    let md = render_markdown(&f, None).expect("a text");
    assert!(md.contains("**Lieu :** **Rennes** _centre_\n\n"));
}

#[test]
fn date_that_is_none_stands_as_written() {
    let mut f = dupont();
    f.date = "31/02/2025".into();
    let md = render_markdown(&f, None).expect("a text");
    assert!(md.contains("**Date :** 31/02/2025\n\n"));
}
