use vstd::prelude::*;

use crate::text::{join_texts, joined, split, split_at_char, string_texts, trim_text, trimmed};

verus! {

/// The environment a service runs in.
#[derive(Debug, PartialEq, Eq, Structural, Clone, Copy)]
pub enum Environment {
    Development,
    Test,
    Production,
}

pub open spec fn environment_name(e: Environment) -> Seq<char> {
    match e {
        Environment::Development => seq!['D', 'e', 'v', 'e', 'l', 'o', 'p', 'm', 'e', 'n', 't'],
        Environment::Test => seq!['T', 'e', 's', 't'],
        Environment::Production => seq![
            'P',
            'r',
            'o',
            'd',
            'u',
            'c',
            't',
            'i',
            'o',
            'n',
        ],
    }
}

impl Environment {
    /// The name of the variant, as `Debug` writes it.
    pub fn name(&self) -> (r: &'static str)
        ensures
            r@ == environment_name(*self),
    {
        match self {
            Environment::Development => {
                proof {
                    reveal_strlit("Development");
                }
                "Development"
            },
            Environment::Test => {
                proof {
                    reveal_strlit("Test");
                }
                "Test"
            },
            Environment::Production => {
                proof {
                    reveal_strlit("Production");
                }
                "Production"
            },
        }
    }
}

/// Application configuration.
#[derive(Debug, Clone)]
pub struct AppConfiguration {
    pub version: &'static str,
    pub env: Environment,
}

/// State shared by the handlers of the hero service.
#[derive(Debug, Clone)]
pub struct AppState {
    pub version: &'static str,
    pub env: Environment,
}

/// The answer of the healthcheck endpoints.
#[derive(Debug, PartialEq, Eq, Clone)]
pub struct HealthcheckResponseDto {
    pub version: String,
    pub env: Environment,
}

impl HealthcheckResponseDto {
    pub fn new(state: &AppConfiguration) -> (r: HealthcheckResponseDto)
        ensures
            r.version@ == state.version@,
            r.env == state.env,
    {
        HealthcheckResponseDto { version: state.version.to_owned(), env: state.env }
    }
}

/// `{"version":"<version>","env":"<environment>"}`, with both values written as they are.
pub open spec fn healthcheck_text(version: Seq<char>, env: Environment) -> Seq<char> {
    seq!['{', '"', 'v', 'e', 'r', 's', 'i', 'o', 'n', '"', ':', '"'] + version + seq![
        '"',
        ',',
        '"',
        'e',
        'n',
        'v',
        '"',
        ':',
        '"',
    ] + environment_name(env) + seq!['"', '}']
}

/// The JSON body that the healthcheck endpoints answer with.
pub fn healthcheck_json(state: &AppConfiguration) -> (r: String)
    ensures
        r@ == healthcheck_text(state.version@, state.env),
{
    let head = "{\"version\":\"";
    let middle = "\",\"env\":\"";
    let tail = "\"}";
    proof {
        reveal_strlit("{\"version\":\"");
        reveal_strlit("\",\"env\":\"");
        reveal_strlit("\"}");
    }
    let mut r = head.to_owned();
    r.append(state.version);
    r.append(middle);
    r.append(state.env.name());
    r.append(tail);
    assert(r@ =~= healthcheck_text(state.version@, state.env));
    r
}

/// A point in time, in UTC: whole seconds since the Unix epoch and the nanoseconds after them.
#[derive(Debug, PartialEq, Eq, Structural, Clone, Copy, Default)]
pub struct Timestamp {
    pub seconds: i64,
    pub nanos: u32,
}

/// The most abilities a hero may have.
pub const MAX_ABILITIES: usize = 5;

/// A hero.
#[derive(Debug, PartialEq, Eq, Clone, Default)]
pub struct Hero {
    pub first_seen: Timestamp,
    pub name: String,
    pub can_fly: bool,
    pub realname: Option<String>,
    pub abilities: Option<Vec<String>>,
}

/// A hero with its primary key and version.
#[derive(Debug, PartialEq, Eq, Clone, Default)]
pub struct IdentifyableHero {
    pub id: i64,
    pub inner_hero: Hero,
    pub version: i32,
}

/// Primary key and version that storing a hero gave it.
#[derive(Debug, PartialEq, Eq, Structural, Clone, Copy)]
pub struct HeroPkVersion {
    pub id: i64,
    pub version: i32,
}

impl IdentifyableHero {
    /// The stored form of `hero`, under the key and version that storing it gave.
    pub fn new(hero: Hero, pk: HeroPkVersion) -> (r: IdentifyableHero)
        ensures
            r.id == pk.id,
            r.version == pk.version,
            r.inner_hero == hero,
    {
        IdentifyableHero { id: pk.id, inner_hero: hero, version: pk.version }
    }
}

/// Filter of a hero listing.
#[derive(Debug, PartialEq, Eq, Clone, Default)]
pub struct GetHeroFilter {
    pub name_filter: Option<String>,
}

impl GetHeroFilter {
    /// The `LIKE` pattern that names must match: the filter, or `%` (any name) without one.
    pub fn name_pattern(&self) -> (r: &str)
        ensures
            match self.name_filter {
                Some(f) => r@ == f@,
                None => r@ == seq!['%'],
            },
    {
        match &self.name_filter {
            Some(f) => f.as_str(),
            None => {
                proof {
                    reveal_strlit("%");
                }
                "%"
            },
        }
    }
}

/// An application-level error of the hero service.
#[derive(Debug, PartialEq, Eq, Clone)]
pub enum ApiError {
    /// The database failed; the text describes how.
    Database(String),
    /// Something else failed; the text describes what.
    Internal(String),
    /// The request body holds an entity that breaks a rule; the text says which.
    InvalidEntity(String),
}

pub open spec fn valid_hero(h: Hero) -> bool {
    match h.abilities {
        Some(a) => a@.len() <= MAX_ABILITIES,
        None => true,
    }
}

impl Hero {
    /// Checks the rules of a hero: at most five abilities.
    pub fn validate(&self) -> (r: Result<(), ApiError>)
        ensures
            r is Ok <==> valid_hero(*self),
            r matches Err(e) ==> e is InvalidEntity,
    {
        match &self.abilities {
            Some(a) => if a.len() <= MAX_ABILITIES {
                Ok(())
            } else {
                Err(ApiError::InvalidEntity("abilities: at most 5 entries are allowed".to_owned()))
            },
            None => Ok(()),
        }
    }
}

/// The abilities that a comma-separated list names, each without surrounding white space.
pub open spec fn abilities_of(text: Seq<char>) -> Seq<Seq<char>> {
    split(text, ',').map_values(|p: Seq<char>| trimmed(p))
}

/// Reads the abilities of a hero from their stored form, a comma-separated list.
pub fn deserialize_abilities(text: Option<&str>) -> (r: Option<Vec<String>>)
    ensures
        match text {
            Some(t) => r matches Some(v) && string_texts(v@) == abilities_of(t@),
            None => r is None,
        },
{
    match text {
        Some(t) => {
            let pieces = split_at_char(t, ',');
            let mut v: Vec<String> = Vec::new();
            let mut i: usize = 0;
            while i < pieces.len()
                invariant
                    i <= pieces@.len(),
                    pieces@.len() == split(t@, ',').len(),
                    forall|j: int|
                        0 <= j < pieces@.len() ==> (#[trigger] pieces@[j])@ == split(t@, ',')[j],
                    string_texts(v@) =~= abilities_of(t@).subrange(0, i as int),
                decreases pieces@.len() - i,
            {
                let piece: &str = pieces[i];
                let ghost before = v@;
                v.push(trim_text(piece).to_owned());
                assert(v@ == before.push(v@.last()));
                assert(abilities_of(t@)[i as int] == trimmed(split(t@, ',')[i as int]));
                assert(string_texts(v@) =~= string_texts(before).push(v@.last()@));
                i = i + 1;
            }
            assert(abilities_of(t@).subrange(0, i as int) =~= abilities_of(t@));
            Some(v)
        },
        None => None,
    }
}

/// `", "`, which separates abilities in their stored form.
pub open spec fn abilities_separator() -> Seq<char> {
    seq![',', ' ']
}

/// Writes the abilities of a hero in their stored form, separated by `", "`.
pub fn serialize_abilities(abilities: &Option<Vec<String>>) -> (r: Option<String>)
    ensures
        match abilities {
            Some(v) => r matches Some(s) && s@ == joined(string_texts(v@), abilities_separator()),
            None => r is None,
        },
{
    match abilities {
        Some(v) => {
            let sep = ", ";
            proof {
                reveal_strlit(", ");
            }
            assert(sep@ =~= abilities_separator());
            Some(join_texts(v, sep))
        },
        None => None,
    }
}

pub open spec fn digit_char(d: nat) -> char {
    if d == 0 {
        '0'
    } else if d == 1 {
        '1'
    } else if d == 2 {
        '2'
    } else if d == 3 {
        '3'
    } else if d == 4 {
        '4'
    } else if d == 5 {
        '5'
    } else if d == 6 {
        '6'
    } else if d == 7 {
        '7'
    } else if d == 8 {
        '8'
    } else {
        '9'
    }
}

/// The decimal digits of `n`, without leading zeros.
pub open spec fn decimal(n: nat) -> Seq<char>
    decreases n,
{
    if n < 10 {
        seq![digit_char(n)]
    } else {
        decimal(n / 10).push(digit_char(n % 10))
    }
}

/// `n` in decimal, with a `-` in front when it is negative.
pub open spec fn signed_decimal(n: int) -> Seq<char> {
    if n < 0 {
        seq!['-'] + decimal((-n) as nat)
    } else {
        decimal(n as nat)
    }
}

fn digit_text(d: u64) -> (r: &'static str)
    requires
        d < 10,
    ensures
        r@ == seq![digit_char(d as nat)],
{
    proof {
        reveal_strlit("0");
        reveal_strlit("1");
        reveal_strlit("2");
        reveal_strlit("3");
        reveal_strlit("4");
        reveal_strlit("5");
        reveal_strlit("6");
        reveal_strlit("7");
        reveal_strlit("8");
        reveal_strlit("9");
    }
    let r = if d == 0 {
        "0"
    } else if d == 1 {
        "1"
    } else if d == 2 {
        "2"
    } else if d == 3 {
        "3"
    } else if d == 4 {
        "4"
    } else if d == 5 {
        "5"
    } else if d == 6 {
        "6"
    } else if d == 7 {
        "7"
    } else if d == 8 {
        "8"
    } else {
        "9"
    };
    assert(r@ =~= seq![digit_char(d as nat)]);
    r
}

fn append_decimal(out: &mut String, n: u64)
    ensures
        final(out)@ == old(out)@ + decimal(n as nat),
    decreases n,
{
    if n >= 10 {
        append_decimal(out, n / 10);
    }
    out.append(digit_text(n % 10));
    assert(final(out)@ =~= old(out)@ + decimal(n as nat));
}

pub open spec fn heroes_prefix() -> Seq<char> {
    seq!['/', 'h', 'e', 'r', 'o', 'e', 's', '/']
}

/// The location of the hero with primary key `id`: `/heroes/<id>`.
pub fn hero_location(id: i64) -> (r: String)
    ensures
        r@ == heroes_prefix() + signed_decimal(id as int),
{
    let prefix = "/heroes/";
    proof {
        reveal_strlit("/heroes/");
        reveal_strlit("-");
    }
    let mut r = prefix.to_owned();
    if id < 0 {
        r.append("-");
        let magnitude: u64 = (-(id + 1)) as u64 + 1;
        append_decimal(&mut r, magnitude);
    } else {
        append_decimal(&mut r, id as u64);
    }
    assert(r@ =~= heroes_prefix() + signed_decimal(id as int));
    r
}

/// The fields of an RFC 7807 problem report that the hero service fills.
#[derive(Debug, PartialEq, Eq, Clone)]
pub struct Problem {
    pub status: u16,
    pub type_url: String,
    pub title: String,
    pub detail: Option<String>,
}

pub const UNPROCESSABLE_ENTITY: u16 = 422;

pub const INTERNAL_SERVER_ERROR: u16 = 500;

pub open spec fn unprocessable_entity_type() -> Seq<char> {
    seq![
        'h', 't', 't', 'p', 's', ':', '/', '/', 'e', 'x', 'a', 'm', 'p', 'l', 'e', '.', 'c', 'o',
        'm', '/', 'e', 'r', 'r', 'o', 'r', 's', '/', 'u', 'n', 'p', 'r', 'o', 'c', 'e', 's', 's',
        'a', 'b', 'l', 'e', '-', 'e', 'n', 't', 'i', 't', 'y',
    ]
}

pub open spec fn unprocessable_entity_title() -> Seq<char> {
    seq![
        'U', 'n', 'p', 'r', 'o', 'c', 'e', 's', 's', 'a', 'b', 'l', 'e', ' ', 'e', 'n', 't', 'i',
        't', 'y', ' ', 'i', 'n', ' ', 'r', 'e', 'q', 'u', 'e', 's', 't', ' ', 'b', 'o', 'd', 'y',
    ]
}

pub open spec fn internal_error_type() -> Seq<char> {
    seq![
        'h', 't', 't', 'p', 's', ':', '/', '/', 'e', 'x', 'a', 'm', 'p', 'l', 'e', '.', 'c', 'o',
        'm', '/', 'e', 'r', 'r', 'o', 'r', 's', '/', 'i', 'n', 't', 'e', 'r', 'n', 'a', 'l', '-',
        'e', 'r', 'r', 'o', 'r',
    ]
}

pub open spec fn internal_error_title() -> Seq<char> {
    seq![
        'I', 'n', 't', 'e', 'r', 'n', 'a', 'l', ' ', 'S', 'e', 'r', 'v', 'e', 'r', ' ', 'E', 'r',
        'r', 'o', 'r',
    ]
}

impl Problem {
    /// A request body holds an entity that breaks a rule, as `detail` says.
    pub fn unprocessable_entity(detail: &str) -> (r: Problem)
        ensures
            r.status == UNPROCESSABLE_ENTITY,
            r.type_url@ == unprocessable_entity_type(),
            r.title@ == unprocessable_entity_title(),
            r.detail matches Some(d) && d@ == detail@,
    {
        let type_url = "https://example.com/errors/unprocessable-entity";
        let title = "Unprocessable entity in request body";
        proof {
            reveal_strlit("https://example.com/errors/unprocessable-entity");
            reveal_strlit("Unprocessable entity in request body");
        }
        let r = Problem {
            status: UNPROCESSABLE_ENTITY,
            type_url: type_url.to_owned(),
            title: title.to_owned(),
            detail: Some(detail.to_owned()),
        };
        assert(r.type_url@ =~= unprocessable_entity_type());
        assert(r.title@ =~= unprocessable_entity_title());
        r
    }

    /// The service failed, with `detail` where something says how.
    pub fn internal_error(detail: Option<&str>) -> (r: Problem)
        ensures
            r.status == INTERNAL_SERVER_ERROR,
            r.type_url@ == internal_error_type(),
            r.title@ == internal_error_title(),
            match detail {
                Some(d) => r.detail matches Some(x) && x@ == d@,
                None => r.detail is None,
            },
    {
        let type_url = "https://example.com/errors/internal-error";
        let title = "Internal Server Error";
        proof {
            reveal_strlit("https://example.com/errors/internal-error");
            reveal_strlit("Internal Server Error");
        }
        let r = Problem {
            status: INTERNAL_SERVER_ERROR,
            type_url: type_url.to_owned(),
            title: title.to_owned(),
            detail: match detail {
                Some(d) => Some(d.to_owned()),
                None => None,
            },
        };
        assert(r.type_url@ =~= internal_error_type());
        assert(r.title@ =~= internal_error_title());
        r
    }
}

impl ApiError {
    /// The problem report that answers a request which failed with this error: an invalid
    /// entity is the client's fault and is described; anything else is an internal error,
    /// and its cause is not disclosed.
    pub fn problem(&self) -> (r: Problem)
        ensures
            match self {
                ApiError::InvalidEntity(d) => {
                    &&& r.status == UNPROCESSABLE_ENTITY
                    &&& r.type_url@ == unprocessable_entity_type()
                    &&& r.title@ == unprocessable_entity_title()
                    &&& r.detail matches Some(x) && x@ == d@
                },
                _ => {
                    &&& r.status == INTERNAL_SERVER_ERROR
                    &&& r.type_url@ == internal_error_type()
                    &&& r.title@ == internal_error_title()
                    &&& r.detail is None
                },
            },
    {
        match self {
            ApiError::InvalidEntity(d) => Problem::unprocessable_entity(d.as_str()),
            _ => Problem::internal_error(None),
        }
    }
}

/// The problem report that answers a request whose handler panicked, with the panic's
/// message where it had one.
pub fn handle_panic(message: Option<&str>) -> (r: Problem)
    ensures
        r.status == INTERNAL_SERVER_ERROR,
        r.type_url@ == internal_error_type(),
        r.title@ == internal_error_title(),
        match message {
            Some(m) => r.detail matches Some(x) && x@ == m@,
            None => r.detail is None,
        },
{
    Problem::internal_error(message)
}

/// Problem reports with a fixed type and title.
#[derive(Debug, PartialEq, Eq, Clone, Copy)]
pub enum ProblemDetail<'a> {
    UnprocessableEntity(&'a str),
}

impl<'a> ProblemDetail<'a> {
    pub fn problem(&self) -> (r: Problem)
        ensures
            match self {
                ProblemDetail::UnprocessableEntity(d) => {
                    &&& r.status == UNPROCESSABLE_ENTITY
                    &&& r.type_url@ == unprocessable_entity_type()
                    &&& r.title@ == unprocessable_entity_title()
                    &&& r.detail matches Some(x) && x@ == d@
                },
            },
    {
        match self {
            ProblemDetail::UnprocessableEntity(d) => Problem::unprocessable_entity(d),
        }
    }
}

} // verus!
