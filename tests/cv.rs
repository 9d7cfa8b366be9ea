use deciduously_com::code::count_lines;
use deciduously_com::cv::{CvHeader, DegreeType, Hyperlink, Month, MonthYear};

#[test]
fn hyperlink_new_keeps_fields() {
    let h = Hyperlink::new("Blog", "/blog");
    assert_eq!(h.name, "Blog");
    assert_eq!(h.target, "/blog");
}

#[test]
fn degree_names() {
    assert_eq!(DegreeType::Cert.full_name(), "Certificate");
    assert_eq!(DegreeType::BS.full_name(), "Bachelor of Science");
    assert_eq!(DegreeType::Cert.abbreviation(), "Cert.");
    assert_eq!(DegreeType::BS.abbreviation(), "B.S.");
    assert_eq!(DegreeType::default(), DegreeType::BS);
}

#[test]
fn mail_to_link() {
    let header = CvHeader {
        email: "me@example.com".to_string(),
        ..CvHeader::default()
    };
    assert_eq!(header.mail_to(), "mailto:me@example.com");
}

#[test]
fn months() {
    assert_eq!(Month::default(), Month::Jan);
    assert_eq!(Month::Jan.number(), 1);
    assert_eq!(Month::Dec.number(), 12);
    assert_eq!(Month::from_number(9), Some(Month::Sep));
    assert_eq!(Month::from_number(0), None);
    assert_eq!(Month::from_number(13), None);
    assert_eq!(Month::Oct.name(), "Oct");
    let d = MonthYear {
        year: 2020,
        month: Month::May,
    };
    assert_eq!(d.month.name(), "May");
}

#[test]
fn line_counts() {
    assert_eq!(count_lines(""), 1);
    assert_eq!(count_lines("one"), 1);
    assert_eq!(count_lines("one\ntwo"), 2);
    assert_eq!(count_lines("one\ntwo\n"), 2);
    assert_eq!(count_lines("\n"), 1);
    assert_eq!(count_lines("\n\n"), 2);
}
