//! The résumé: links, addresses, dates, degrees and employment.
use vstd::prelude::*;
use crate::text::join_text;

verus! {

/// A named link.
#[derive(Debug, Clone, Default)]
pub struct Hyperlink {
    pub name: String,
    pub target: String,
}

impl Hyperlink {
    pub fn new(name: &str, target: &str) -> (r: Self)
        ensures
            r.name@ == name@,
            r.target@ == target@,
    {
        Hyperlink { name: name.to_owned(), target: target.to_owned() }
    }
}

/// A link shown with an icon in the résumé's header.
#[derive(Debug, Clone, Default)]
pub struct CvLink {
    pub hyperlink: Hyperlink,
    pub icon: String,
}

/// A town with its postal code and region.
#[derive(Debug, Clone, Default)]
pub struct Locality {
    pub name: String,
    pub postal_code: String,
    pub state: AddressRegion,
}

/// A state or province.
#[derive(Debug, Clone, Default)]
pub struct AddressRegion {
    pub abbreviation: String,
    pub full_name: String,
    pub country: String,
}

/// A postal address.
#[derive(Debug, Clone, Default)]
pub struct Address {
    pub street: String,
    pub line2: Option<String>,
    pub locality: Locality,
}

/// A month of the year.
#[derive(Debug, Clone, Copy, PartialEq, Eq, Structural)]
pub enum Month {
    Jan,
    Feb,
    Mar,
    Apr,
    May,
    Jun,
    Jul,
    Aug,
    Sep,
    Oct,
    Nov,
    Dec,
}

pub open spec fn month_number(m: Month) -> int {
    match m {
        Month::Jan => 1,
        Month::Feb => 2,
        Month::Mar => 3,
        Month::Apr => 4,
        Month::May => 5,
        Month::Jun => 6,
        Month::Jul => 7,
        Month::Aug => 8,
        Month::Sep => 9,
        Month::Oct => 10,
        Month::Nov => 11,
        Month::Dec => 12,
    }
}

impl Month {
    /// The month's number, January being 1.
    pub fn number(&self) -> (r: u8)
        ensures
            r == month_number(*self),
    {
        match self {
            Month::Jan => 1,
            Month::Feb => 2,
            Month::Mar => 3,
            Month::Apr => 4,
            Month::May => 5,
            Month::Jun => 6,
            Month::Jul => 7,
            Month::Aug => 8,
            Month::Sep => 9,
            Month::Oct => 10,
            Month::Nov => 11,
            Month::Dec => 12,
        }
    }

    /// The month of a number from 1 to 12.
    pub fn from_number(n: u8) -> (r: Option<Month>)
        ensures
            match r {
                Some(m) => 1 <= n <= 12 && month_number(m) == n,
                None => !(1 <= n <= 12),
            },
    {
        match n {
            1 => Some(Month::Jan),
            2 => Some(Month::Feb),
            3 => Some(Month::Mar),
            4 => Some(Month::Apr),
            5 => Some(Month::May),
            6 => Some(Month::Jun),
            7 => Some(Month::Jul),
            8 => Some(Month::Aug),
            9 => Some(Month::Sep),
            10 => Some(Month::Oct),
            11 => Some(Month::Nov),
            12 => Some(Month::Dec),
            _ => None,
        }
    }

    /// The month's short name, as shown in the résumé.
    pub fn name(&self) -> (r: &'static str)
        ensures
            r@ == month_name(*self),
    {
        match self {
            Month::Jan => "Jan",
            Month::Feb => "Feb",
            Month::Mar => "Mar",
            Month::Apr => "Apr",
            Month::May => "May",
            Month::Jun => "Jun",
            Month::Jul => "Jul",
            Month::Aug => "Aug",
            Month::Sep => "Sep",
            Month::Oct => "Oct",
            Month::Nov => "Nov",
            Month::Dec => "Dec",
        }
    }
}

pub open spec fn month_name(m: Month) -> Seq<char> {
    match m {
        Month::Jan => "Jan"@,
        Month::Feb => "Feb"@,
        Month::Mar => "Mar"@,
        Month::Apr => "Apr"@,
        Month::May => "May"@,
        Month::Jun => "Jun"@,
        Month::Jul => "Jul"@,
        Month::Aug => "Aug"@,
        Month::Sep => "Sep"@,
        Month::Oct => "Oct"@,
        Month::Nov => "Nov"@,
        Month::Dec => "Dec"@,
    }
}

impl Default for Month {
    fn default() -> (r: Self)
        ensures
            r == Month::Jan,
    {
        Month::Jan
    }
}

/// A month of a given year.
#[derive(Debug, Clone, Copy, PartialEq, Eq, Structural)]
pub struct MonthYear {
    pub year: i16,
    pub month: Month,
}

/// The kind of a degree.
#[derive(Debug, Clone, Copy, PartialEq, Eq, Structural)]
pub enum DegreeType {
    Cert,
    BS,
}

impl DegreeType {
    pub fn full_name(&self) -> (r: &'static str)
        ensures
            r@ == match *self {
                DegreeType::Cert => "Certificate"@,
                DegreeType::BS => "Bachelor of Science"@,
            },
    {
        match self {
            DegreeType::Cert => "Certificate",
            DegreeType::BS => "Bachelor of Science",
        }
    }

    pub fn abbreviation(&self) -> (r: &'static str)
        ensures
            r@ == match *self {
                DegreeType::Cert => "Cert."@,
                DegreeType::BS => "B.S."@,
            },
    {
        match self {
            DegreeType::Cert => "Cert.",
            DegreeType::BS => "B.S.",
        }
    }
}

impl Default for DegreeType {
    fn default() -> (r: Self)
        ensures
            r == DegreeType::BS,
    {
        DegreeType::BS
    }
}

/// One degree earned or expected.
#[derive(Debug, Clone)]
pub struct Degree {
    pub degree_type: DegreeType,
    pub graduation_date: MonthYear,
    pub expected: bool,
    /// The grade point average in hundredths: 350 stands for 3.50.
    pub gpa: u16,
    pub subject: String,
}

/// A school and the degrees earned there.
#[derive(Debug, Clone)]
pub struct School {
    pub name: String,
    pub address: Address,
    pub degrees: Vec<Degree>,
}

/// The résumé's introduction.
#[derive(Debug, Clone, Default)]
pub struct Intro {
    pub one_liner: String,
    pub about: String,
    pub skills: String,
    pub techs: String,
}

/// The résumé's header.
#[derive(Debug, Clone, Default)]
pub struct CvHeader {
    pub first_name: String,
    pub last_name: String,
    pub email: String,
    pub subtitle: String,
    pub links: Vec<CvLink>,
    pub address: Address,
}

impl CvHeader {
    /// The `mailto:` link of the header's address.
    pub fn mail_to(&self) -> (r: String)
        ensures
            r@ == "mailto:"@ + self.email@,
    {
        join_text("mailto:", self.email.as_str())
    }
}

/// A project of the résumé.
#[derive(Debug, Clone, Default)]
pub struct CvProject {
    pub name: String,
    pub synopsis: String,
}

/// One position held.
#[derive(Debug, Clone)]
pub struct CvEmployment {
    pub title: String,
    pub employer: String,
    pub begin_date: MonthYear,
    pub end_date: Option<MonthYear>,
    pub current: bool,
    pub address: Address,
    pub bullets: Vec<String>,
}

/// The whole résumé.
#[derive(Debug, Clone)]
pub struct CV {
    pub header: CvHeader,
    pub education: Vec<School>,
    pub intro: Intro,
    pub projects: Vec<CvProject>,
    pub employment: Vec<CvEmployment>,
}

} // verus!
