use autorisation::domain::form::{AutorisationForm, Enfant, Responsable};
use autorisation::render::RenderError;
use autorisation::render::pdf::{
    layout_page, page_header, page_margin, paper_size_for, paper_size_from_name, points_from_mm,
    Align, Block, PaperSize, PdfConfig,
};

fn text(s: &str, size: u8, bold: bool, align: Align) -> Block {
    Block::Text {
        text: s.into(),
        size,
        bold,
        align,
    }
}

fn body(s: &str) -> Block {
    text(s, 16, false, Align::Left)
}

fn gap(quarters: u8) -> Block {
    Block::Space { quarters }
}

fn signature() -> Vec<Block> {
    vec![
        body("Fait à _______________________, le _______________________"),
        gap(4),
        body("Signature du responsable légal :"),
        gap(4),
        text("____________________________", 12, false, Align::Right),
    ]
}

#[test]
fn page_of_a_bare_form() {
    let f = AutorisationForm {
        enfant: Enfant {
            nom: "Izi".into(),
            prenom: Some("Test".into()),
        },
        date: "25/09/2025".into(),
        lieu: "Chez moi".into(),
        classe: None,
        responsable: None,
        plage_horaire: None,
        motif: None,
    };
    let mut expected = vec![
        text("Autorisation de sortie", 32, true, Align::Center),
        gap(4),
        text("Izi Test", 24, true, Align::Left),
        body("Date: 25 septembre 2025"),
        body("Lieu: Chez moi"),
        gap(2),
    ];
    expected.extend(signature());
    assert_eq!(layout_page(&f), expected);
}

#[test]
fn page_with_every_field() {
    let f = AutorisationForm {
        enfant: Enfant {
            nom: "Dupont".into(),
            prenom: None,
        },
        date: "31/02/2025".into(),
        lieu: "Rennes".into(),
        classe: Some("CM1".into()),
        responsable: Some(Responsable {
            nom: "Marie Dupont".into(),
            telephone: Some("0612345678".into()),
        }),
        plage_horaire: None,
        motif: Some("Rendez-vous".into()),
    };
    let mut expected = vec![
        text("Autorisation de sortie", 32, true, Align::Center),
        gap(4),
        text("Dupont ", 24, true, Align::Left),
        body("Date: 31/02/2025"),
        body("Lieu: Rennes"),
        gap(2),
        body("Classe : CM1"),
        gap(1),
        body("Responsable légal : Marie Dupont"),
        body("Tél : 0612345678"),
        gap(2),
        text("Motif :", 18, true, Align::Left),
        body("Rendez-vous"),
        gap(1),
    ];
    expected.extend(signature());
    assert_eq!(layout_page(&f), expected);
}

#[test]
fn guardian_without_phone() {
    let f = AutorisationForm {
        enfant: Enfant {
            nom: "A".into(),
            prenom: None,
        },
        date: "1/1/2025".into(),
        lieu: "B".into(),
        classe: None,
        responsable: Some(Responsable {
            nom: "C".into(),
            telephone: None,
        }),
        plage_horaire: None,
        motif: None,
    };
    let blocks = layout_page(&f);
    assert_eq!(blocks[6], body("Responsable légal : C"));
    assert_eq!(blocks[7], gap(2));
    assert_eq!(blocks.len(), 8 + 5);
}

#[test]
fn header_on_the_first_page_only() {
    assert_eq!(
        page_header(Some("École Jules Ferry"), 1),
        vec![text("École Jules Ferry", 24, true, Align::Center), gap(1)]
    );
    assert_eq!(page_header(Some("École Jules Ferry"), 2), vec![]);
    assert_eq!(page_header(Some("École Jules Ferry"), 0), vec![]);
    assert_eq!(page_header(Some(""), 1), vec![]);
    assert_eq!(page_header(None, 1), vec![]);
}

#[test]
fn paper_by_name() {
    assert_eq!(paper_size_from_name("letter"), PaperSize::Letter);
    assert_eq!(paper_size_from_name("Letter"), PaperSize::Letter);
    assert_eq!(paper_size_from_name("usletter"), PaperSize::Letter);
    assert_eq!(paper_size_from_name("us_letter"), PaperSize::Letter);
    assert_eq!(paper_size_from_name("US_LETTER"), PaperSize::Letter);
    assert_eq!(paper_size_from_name("u\u{17f}letter"), PaperSize::Letter);
    assert_eq!(paper_size_from_name("a4"), PaperSize::A4);
    assert_eq!(paper_size_from_name("A4"), PaperSize::A4);
    assert_eq!(paper_size_from_name(""), PaperSize::A4);
    assert_eq!(paper_size_from_name("legal"), PaperSize::A4);
    assert_eq!(paper_size_from_name("us letter"), PaperSize::A4);
}

#[test]
fn paper_by_name_in_capitals() {
    assert_eq!(paper_size_for("LETTER"), PaperSize::Letter);
    assert_eq!(paper_size_for("USLETTER"), PaperSize::Letter);
    assert_eq!(paper_size_for("US_LETTER"), PaperSize::Letter);
    assert_eq!(paper_size_for("letter"), PaperSize::A4);
    assert_eq!(paper_size_for("A4"), PaperSize::A4);
}

#[test]
fn points_for_millimetres() {
    assert_eq!(points_from_mm(0), 0);
    assert_eq!(points_from_mm(18), 51);
    assert_eq!(points_from_mm(20), 57);
    assert_eq!(points_from_mm(254), 720);
    assert_eq!(points_from_mm(1), 3);
    for mm in 0u16..=2000 {
        let exact = (mm as f64 * 72.0) / 25.4;
        assert_eq!(points_from_mm(mm), exact.round() as u32, "{}", mm);
    }
    assert_eq!(points_from_mm(u16::MAX), (65535.0f64 * 72.0 / 25.4).round() as u32);
}

#[test]
fn margin_of_the_page() {
    assert_eq!(page_margin(), 51);
}

#[test]
fn settings_and_their_defaults() {
    let c = PdfConfig::from_settings(None, None);
    assert_eq!(c.paper, PaperSize::A4);
    assert_eq!(c.font_family, "Inter");
    let c = PdfConfig::from_settings(Some("letter"), Some("Roboto"));
    assert_eq!(c.paper, PaperSize::Letter);
    assert_eq!(c.font_family, "Roboto");
    let c = PdfConfig::from_settings(Some("B5"), None);
    assert_eq!(c.paper, PaperSize::A4);
}

#[test]
fn fonts_are_looked_for_directory_by_directory() {
    let c = PdfConfig::from_settings(None, Some("Roboto"));
    let pairs = c.font_search();
    let dirs = [
        "./fonts",
        "./assets/fonts",
        "/usr/share/fonts/truetype/dejavu",
        "/usr/share/fonts",
        "/usr/local/share/fonts",
    ];
    let families = ["Roboto", "DejaVuSans", "LiberationSans"];
    let mut expected = Vec::new();
    for d in dirs {
        for f in families {
            expected.push((d.to_string(), f.to_string()));
        }
    }
    assert_eq!(pairs, expected);
    assert_eq!(pairs.len(), 15);
    assert_eq!(
        PdfConfig::from_settings(None, None).font_search()[0],
        ("./fonts".to_string(), "Inter".to_string())
    );
}

#[test]
fn failures_have_messages() {
    assert_eq!(
        RenderError::MissingFont.message(),
        "aucune police trouvée : placer DejaVuSans ou Inter dans ./fonts"
    );
    assert_eq!(RenderError::Backend.message(), "échec lors du rendu PDF");
}
