//! Identifier newtypes used by the public API.

use vstd::prelude::*;

use crate::text::{
    all_digits, char_is_ascii_alphanumeric, chars_of, contains_pair, decimal, digits_value,
    has_pair, is_ascii_alphanumeric, is_ascii_digit, is_ascii_lowercase, is_whitespace,
    split_chars, split_on, string_from_chars, trim, trim_chars, u64_to_decimal,
    utf8_len_exceeds, append_str, debug_char, debug_char_text, debug_str, debug_str_text,
};

verus! {

/// A character allowed anywhere in an item identifier: `[A-Za-z0-9_.-]`.
pub open spec fn is_identifier_char(c: char) -> bool {
    is_ascii_alphanumeric(c) || c == '_' || c == '-' || c == '.'
}

/// A character allowed in an identifier that is used to create an S3 bucket.
pub open spec fn is_bucket_char(c: char) -> bool {
    is_ascii_lowercase(c) || is_ascii_digit(c) || c == '-' || c == '.'
}

/// A character allowed at either end of a bucket-creation identifier.
pub open spec fn is_bucket_edge_char(c: char) -> bool {
    is_ascii_lowercase(c) || is_ascii_digit(c)
}

/// The first character of `s` that may not appear in an identifier.
pub open spec fn first_non_identifier_char(s: Seq<char>) -> Option<char>
    decreases s.len(),
{
    if s.len() == 0 {
        None
    } else if !is_identifier_char(s[0]) {
        Some(s[0])
    } else {
        first_non_identifier_char(s.drop_first())
    }
}

/// The first character of `s` that may not appear in a bucket-creation identifier.
pub open spec fn first_non_bucket_char(s: Seq<char>) -> Option<char>
    decreases s.len(),
{
    if s.len() == 0 {
        None
    } else if !is_bucket_char(s[0]) {
        Some(s[0])
    } else {
        first_non_bucket_char(s.drop_first())
    }
}

/// Whether a piece of text parses as a `u8` the way `str::parse::<u8>` does:
/// an optional `+`, then one or more ASCII digits whose value is at most 255.
pub open spec fn parses_as_u8(p: Seq<char>) -> bool {
    let d = if p.len() > 0 && p[0] == '+' {
        p.drop_first()
    } else {
        p
    };
    d.len() > 0 && all_digits(d) && digits_value(d) <= 255
}

/// Whether a string has the shape of an IPv4 address: exactly four
/// dot-separated pieces, each of which parses as a `u8`.
pub open spec fn looks_like_ipv4(s: Seq<char>) -> bool {
    let parts = split_on(s, '.');
    parts.len() == 4 && forall|i: int| 0 <= i < 4 ==> parses_as_u8(#[trigger] parts[i])
}

/// A well-formed item identifier: non-empty, at most 100 bytes, starting
/// with an ASCII letter or digit and made of `[A-Za-z0-9_.-]` only.
pub open spec fn valid_identifier(s: Seq<char>) -> bool {
    &&& s.len() > 0
    &&& vstd::utf8::encode_utf8(s).len() <= ItemIdentifier::MAX_IDENTIFIER_LEN
    &&& is_ascii_alphanumeric(s[0])
    &&& forall|i: int| 0 <= i < s.len() ==> is_identifier_char(#[trigger] s[i])
}

/// Abstract form of [`IdentifierError`].
pub enum IdentifierErrorView {
    Empty,
    TooLong { identifier: Seq<char>, max: usize },
    InvalidStartCharacter { identifier: Seq<char>, character: char },
    TooShortForBucketCreation { identifier: Seq<char>, min: usize },
    TooLongForBucketCreation { identifier: Seq<char>, max: usize },
    InvalidCharacter { identifier: Seq<char>, character: char },
    InvalidBucketCreationCharacter { identifier: Seq<char>, character: char },
    InvalidBucketCreationEdgeCharacter { identifier: Seq<char>, character: char },
    AdjacentBucketCreationPeriods { identifier: Seq<char> },
    BucketCreationIdentifierLooksLikeIpAddress { identifier: Seq<char> },
    PeriodAdjacentBucketCreationDash { identifier: Seq<char> },
}

/// What [`ItemIdentifier::new`] yields for a raw input: the trimmed
/// identifier, or the first rule that it breaks.
pub open spec fn identifier_check(raw: Seq<char>) -> Result<Seq<char>, IdentifierErrorView> {
    let t = trim(raw);
    if t.len() == 0 {
        Err(IdentifierErrorView::Empty)
    } else if vstd::utf8::encode_utf8(t).len() > ItemIdentifier::MAX_IDENTIFIER_LEN {
        Err(IdentifierErrorView::TooLong { identifier: t, max: ItemIdentifier::MAX_IDENTIFIER_LEN })
    } else if !is_ascii_alphanumeric(t[0]) {
        Err(IdentifierErrorView::InvalidStartCharacter { identifier: t, character: t[0] })
    } else if first_non_identifier_char(t) is Some {
        Err(
            IdentifierErrorView::InvalidCharacter {
                identifier: t,
                character: first_non_identifier_char(t)->0,
            },
        )
    } else {
        Ok(t)
    }
}

/// What [`ItemIdentifier::validate_for_bucket_creation`] yields for an identifier.
pub open spec fn bucket_check(s: Seq<char>) -> Result<(), IdentifierErrorView> {
    if s.len() < ItemIdentifier::MIN_BUCKET_IDENTIFIER_LEN {
        Err(
            IdentifierErrorView::TooShortForBucketCreation {
                identifier: s,
                min: ItemIdentifier::MIN_BUCKET_IDENTIFIER_LEN,
            },
        )
    } else if s.len() > ItemIdentifier::MAX_BUCKET_IDENTIFIER_LEN {
        Err(
            IdentifierErrorView::TooLongForBucketCreation {
                identifier: s,
                max: ItemIdentifier::MAX_BUCKET_IDENTIFIER_LEN,
            },
        )
    } else if first_non_bucket_char(s) is Some {
        Err(
            IdentifierErrorView::InvalidBucketCreationCharacter {
                identifier: s,
                character: first_non_bucket_char(s)->0,
            },
        )
    } else if !is_bucket_edge_char(s[0]) {
        Err(
            IdentifierErrorView::InvalidBucketCreationEdgeCharacter {
                identifier: s,
                character: s[0],
            },
        )
    } else if !is_bucket_edge_char(s.last()) {
        Err(
            IdentifierErrorView::InvalidBucketCreationEdgeCharacter {
                identifier: s,
                character: s.last(),
            },
        )
    } else if contains_pair(s, '.', '.') {
        Err(IdentifierErrorView::AdjacentBucketCreationPeriods { identifier: s })
    } else if looks_like_ipv4(s) {
        Err(IdentifierErrorView::BucketCreationIdentifierLooksLikeIpAddress { identifier: s })
    } else if contains_pair(s, '-', '.') || contains_pair(s, '.', '-') {
        Err(IdentifierErrorView::PeriodAdjacentBucketCreationDash { identifier: s })
    } else {
        Ok(())
    }
}

/// Item identifier used by Internet Archive.
#[derive(Debug, PartialEq, Eq, PartialOrd, Ord, Hash)]
pub struct ItemIdentifier(String);

/// Task identifier returned by Metadata Write.
#[derive(Clone, Copy, Debug, PartialEq, Eq, PartialOrd, Ord, Hash)]
pub struct TaskId(
    /// Raw numeric task identifier.
    pub u64,
);

/// Validation errors for [`ItemIdentifier`].
#[derive(Clone, Debug, PartialEq, Eq)]
pub enum IdentifierError {
    /// Identifier was empty after trimming.
    Empty,
    /// Identifier exceeds Internet Archive's documented maximum length.
    TooLong {
        /// Identifier value that failed validation.
        identifier: String,
        /// Maximum general identifier length.
        max: usize,
    },
    /// Identifier starts with an unsupported character.
    InvalidStartCharacter {
        /// Identifier value that failed validation.
        identifier: String,
        /// Unsupported first character.
        character: char,
    },
    /// Identifier is too short for Internet Archive's S3 bucket-creation layer.
    TooShortForBucketCreation {
        /// Identifier value that failed validation.
        identifier: String,
        /// Minimum bucket-creation-safe length.
        min: usize,
    },
    /// Identifier is too long for Internet Archive's S3 bucket-creation layer.
    TooLongForBucketCreation {
        /// Identifier value that failed validation.
        identifier: String,
        /// Maximum bucket-creation-safe length.
        max: usize,
    },
    /// Identifier contains an unsupported character.
    InvalidCharacter {
        /// Original identifier value after trimming.
        identifier: String,
        /// Unsupported character.
        character: char,
    },
    /// Identifier contains a character outside the bucket-creation subset.
    InvalidBucketCreationCharacter {
        /// Identifier value that failed validation.
        identifier: String,
        /// Unsupported bucket-creation character.
        character: char,
    },
    /// Identifier starts or ends with a character the bucket-creation subset rejects.
    InvalidBucketCreationEdgeCharacter {
        /// Identifier value that failed validation.
        identifier: String,
        /// Unsupported first or last bucket-creation character.
        character: char,
    },
    /// Identifier contains adjacent periods that S3 bucket creation rejects.
    AdjacentBucketCreationPeriods {
        /// Identifier value that failed validation.
        identifier: String,
    },
    /// Identifier has the shape of an IPv4 address, which S3 bucket creation rejects.
    BucketCreationIdentifierLooksLikeIpAddress {
        /// Identifier value that failed validation.
        identifier: String,
    },
    /// Identifier contains a period adjacent to a dash.
    PeriodAdjacentBucketCreationDash {
        /// Identifier value that failed validation.
        identifier: String,
    },
}

impl View for IdentifierError {
    type V = IdentifierErrorView;

    open spec fn view(&self) -> IdentifierErrorView {
        match self {
            IdentifierError::Empty => IdentifierErrorView::Empty,
            IdentifierError::TooLong { identifier, max } => IdentifierErrorView::TooLong {
                identifier: identifier@,
                max: *max,
            },
            IdentifierError::InvalidStartCharacter {
                identifier,
                character,
            } => IdentifierErrorView::InvalidStartCharacter {
                identifier: identifier@,
                character: *character,
            },
            IdentifierError::TooShortForBucketCreation {
                identifier,
                min,
            } => IdentifierErrorView::TooShortForBucketCreation {
                identifier: identifier@,
                min: *min,
            },
            IdentifierError::TooLongForBucketCreation {
                identifier,
                max,
            } => IdentifierErrorView::TooLongForBucketCreation {
                identifier: identifier@,
                max: *max,
            },
            IdentifierError::InvalidCharacter {
                identifier,
                character,
            } => IdentifierErrorView::InvalidCharacter {
                identifier: identifier@,
                character: *character,
            },
            IdentifierError::InvalidBucketCreationCharacter {
                identifier,
                character,
            } => IdentifierErrorView::InvalidBucketCreationCharacter {
                identifier: identifier@,
                character: *character,
            },
            IdentifierError::InvalidBucketCreationEdgeCharacter {
                identifier,
                character,
            } => IdentifierErrorView::InvalidBucketCreationEdgeCharacter {
                identifier: identifier@,
                character: *character,
            },
            IdentifierError::AdjacentBucketCreationPeriods {
                identifier,
            } => IdentifierErrorView::AdjacentBucketCreationPeriods { identifier: identifier@ },
            IdentifierError::BucketCreationIdentifierLooksLikeIpAddress {
                identifier,
            } => IdentifierErrorView::BucketCreationIdentifierLooksLikeIpAddress {
                identifier: identifier@,
            },
            IdentifierError::PeriodAdjacentBucketCreationDash {
                identifier,
            } => IdentifierErrorView::PeriodAdjacentBucketCreationDash {
                identifier: identifier@,
            },
        }
    }
}

impl View for ItemIdentifier {
    type V = Seq<char>;

    closed spec fn view(&self) -> Seq<char> {
        self.0@
    }
}

impl ItemIdentifier {
    /// Longest item identifier documented by Internet Archive, in bytes.
    pub const MAX_IDENTIFIER_LEN: usize = 100;

    /// Shortest identifier accepted by the conservative IA-S3 bucket-creation subset.
    pub const MIN_BUCKET_IDENTIFIER_LEN: usize = 3;

    /// Longest identifier accepted by the conservative IA-S3 bucket-creation subset.
    pub const MAX_BUCKET_IDENTIFIER_LEN: usize = 63;

    #[verifier::type_invariant]
    closed spec fn well_formed(self) -> bool {
        valid_identifier(self.0@)
    }

    /// Creates a validated item identifier.
    ///
    /// The input is trimmed of surrounding whitespace. It is rejected if it is
    /// then empty, longer than the documented maximum of 100 bytes, does not
    /// start with an ASCII letter or digit, or contains characters outside of
    /// `[A-Za-z0-9_.-]`.
    pub fn new(value: &str) -> (r: Result<Self, IdentifierError>)
        ensures
            match r {
                Ok(id) => identifier_check(value@) == Ok::<Seq<char>, IdentifierErrorView>(id@),
                Err(e) => identifier_check(value@) == Err::<Seq<char>, IdentifierErrorView>(e@),
            },
    {
        let chars = chars_of(value);
        let t = trim_chars(&chars);
        if t.len() == 0 {
            return Err(IdentifierError::Empty);
        }
        let trimmed = string_from_chars(&t);
        if utf8_len_exceeds(&t, ItemIdentifier::MAX_IDENTIFIER_LEN) {
            return Err(IdentifierError::TooLong { identifier: trimmed, max: ItemIdentifier::MAX_IDENTIFIER_LEN });
        }
        let first = t[0];
        if !char_is_ascii_alphanumeric(first) {
            return Err(
                IdentifierError::InvalidStartCharacter { identifier: trimmed, character: first },
            );
        }
        match find_non_identifier_char(&t) {
            Some(character) => Err(
                IdentifierError::InvalidCharacter { identifier: trimmed, character },
            ),
            None => {
                proof {
                    lemma_no_non_identifier_char(t@);
                }
                Ok(ItemIdentifier(trimmed))
            },
        }
    }

    /// Returns the raw identifier string.
    pub fn as_str(&self) -> (r: &str)
        ensures
            r@ == self@,
            valid_identifier(r@),
            trim(r@) == r@,
            identifier_check(r@) == Ok::<Seq<char>, IdentifierErrorView>(r@),
    {
        proof {
            use_type_invariant(self);
            lemma_valid_identifier_checks(self.0@);
        }
        self.0.as_str()
    }

    /// Returns the identifier as an owned string.
    pub fn to_string(&self) -> (r: String)
        ensures
            r@ == self@,
    {
        self.0.clone()
    }

    /// Validates that this identifier can safely create an IA-S3 bucket.
    ///
    /// Bucket creation uses a conservative DNS-compatible subset of the
    /// general identifier rules: 3 to 63 characters of lowercase ASCII
    /// letters, digits, periods and dashes, starting and ending with a letter
    /// or digit, without adjacent periods, without a period next to a dash,
    /// and not shaped like an IPv4 address.
    pub fn validate_for_bucket_creation(&self) -> (r: Result<(), IdentifierError>)
        ensures
            match r {
                Ok(()) => bucket_check(self@) == Ok::<(), IdentifierErrorView>(()),
                Err(e) => bucket_check(self@) == Err::<(), IdentifierErrorView>(e@),
            },
    {
        proof {
            use_type_invariant(self);
        }
        let identifier = &self.0;
        let chars = chars_of(identifier.as_str());
        let length = chars.len();
        if length < ItemIdentifier::MIN_BUCKET_IDENTIFIER_LEN {
            return Err(
                IdentifierError::TooShortForBucketCreation {
                    identifier: identifier.clone(),
                    min: ItemIdentifier::MIN_BUCKET_IDENTIFIER_LEN,
                },
            );
        }
        if length > ItemIdentifier::MAX_BUCKET_IDENTIFIER_LEN {
            return Err(
                IdentifierError::TooLongForBucketCreation {
                    identifier: identifier.clone(),
                    max: ItemIdentifier::MAX_BUCKET_IDENTIFIER_LEN,
                },
            );
        }
        if let Some(character) = find_non_bucket_char(&chars) {
            return Err(
                IdentifierError::InvalidBucketCreationCharacter {
                    identifier: identifier.clone(),
                    character,
                },
            );
        }
        let first = chars[0];
        if !is_bucket_creation_safe_edge_character(first) {
            return Err(
                IdentifierError::InvalidBucketCreationEdgeCharacter {
                    identifier: identifier.clone(),
                    character: first,
                },
            );
        }
        let last = chars[length - 1];
        if !is_bucket_creation_safe_edge_character(last) {
            return Err(
                IdentifierError::InvalidBucketCreationEdgeCharacter {
                    identifier: identifier.clone(),
                    character: last,
                },
            );
        }
        if has_pair(&chars, '.', '.') {
            return Err(
                IdentifierError::AdjacentBucketCreationPeriods { identifier: identifier.clone() },
            );
        }
        if looks_like_ipv4_address(identifier.as_str()) {
            return Err(
                IdentifierError::BucketCreationIdentifierLooksLikeIpAddress {
                    identifier: identifier.clone(),
                },
            );
        }
        if has_pair(&chars, '-', '.') || has_pair(&chars, '.', '-') {
            return Err(
                IdentifierError::PeriodAdjacentBucketCreationDash { identifier: identifier.clone() },
            );
        }
        Ok(())
    }
}

impl Clone for ItemIdentifier {
    fn clone(&self) -> (r: Self)
        ensures
            r@ == self@,
    {
        proof {
            use_type_invariant(self);
        }
        ItemIdentifier(self.0.clone())
    }
}

impl core::str::FromStr for ItemIdentifier {
    type Err = IdentifierError;

    fn from_str(s: &str) -> (r: Result<Self, Self::Err>)
        ensures
            match r {
                Ok(id) => identifier_check(s@) == Ok::<Seq<char>, IdentifierErrorView>(id@),
                Err(e) => identifier_check(s@) == Err::<Seq<char>, IdentifierErrorView>(e@),
            },
    {
        Self::new(s)
    }
}

impl<'a> TryFrom<&'a str> for ItemIdentifier {
    type Error = IdentifierError;

    fn try_from(value: &'a str) -> (r: Result<Self, Self::Error>)
        ensures
            match r {
                Ok(id) => identifier_check(value@) == Ok::<Seq<char>, IdentifierErrorView>(id@),
                Err(e) => identifier_check(value@) == Err::<Seq<char>, IdentifierErrorView>(e@),
            },
    {
        Self::new(value)
    }
}

impl TryFrom<String> for ItemIdentifier {
    type Error = IdentifierError;

    fn try_from(value: String) -> (r: Result<Self, Self::Error>)
        ensures
            match r {
                Ok(id) => identifier_check(value@) == Ok::<Seq<char>, IdentifierErrorView>(id@),
                Err(e) => identifier_check(value@) == Err::<Seq<char>, IdentifierErrorView>(e@),
            },
    {
        Self::new(value.as_str())
    }
}

/// The conversion is specified by the `ensures` of `try_from` itself.
impl<'a> vstd::std_specs::convert::TryFromSpecImpl<&'a str> for ItemIdentifier {
    open spec fn obeys_try_from_spec() -> bool {
        false
    }

    open spec fn try_from_spec(v: &'a str) -> Result<Self, IdentifierError> {
        arbitrary()
    }
}

/// The conversion is specified by the `ensures` of `try_from` itself.
impl vstd::std_specs::convert::TryFromSpecImpl<String> for ItemIdentifier {
    open spec fn obeys_try_from_spec() -> bool {
        false
    }

    open spec fn try_from_spec(v: String) -> Result<Self, IdentifierError> {
        arbitrary()
    }
}

/// Converting an identifier into a string gives back its text.
impl From<ItemIdentifier> for String {
    fn from(value: ItemIdentifier) -> (r: String)
        ensures
            r@ == value@,
    {
        value.0
    }
}

impl vstd::std_specs::convert::FromSpecImpl<ItemIdentifier> for String {
    open spec fn obeys_from_spec() -> bool {
        true
    }

    closed spec fn from_spec(v: ItemIdentifier) -> String {
        v.0
    }
}

impl From<u64> for TaskId {
    fn from(value: u64) -> (r: TaskId) {
        TaskId(value)
    }
}

impl vstd::std_specs::convert::FromSpecImpl<u64> for TaskId {
    open spec fn obeys_from_spec() -> bool {
        true
    }

    open spec fn from_spec(v: u64) -> TaskId {
        TaskId(v)
    }
}

impl TaskId {
    /// Decimal text of the task number, as `Display` would write it.
    pub fn to_string(&self) -> (r: String)
        ensures
            r@ == decimal(self.0 as nat),
    {
        u64_to_decimal(self.0)
    }
}

/// A string that starts and ends with a non-whitespace character is its own trim.
proof fn lemma_trim_fixed(s: Seq<char>)
    requires
        s.len() > 0,
        !is_whitespace(s[0]),
        !is_whitespace(s.last()),
    ensures
        trim(s) == s,
{
}

/// When no character is rejected, every character is a bucket character.
proof fn lemma_no_non_bucket_char(s: Seq<char>)
    requires
        first_non_bucket_char(s) is None,
    ensures
        forall|i: int| 0 <= i < s.len() ==> is_bucket_char(#[trigger] s[i]),
    decreases s.len(),
{
    if s.len() > 0 {
        lemma_no_non_bucket_char(s.drop_first());
        assert forall|i: int| 0 <= i < s.len() implies is_bucket_char(#[trigger] s[i]) by {
            if i > 0 {
                assert(s[i] == s.drop_first()[i - 1]);
            }
        }
    }
}

/// A character sequence without rejected characters has none to report.
proof fn lemma_all_identifier_chars(s: Seq<char>)
    requires
        forall|i: int| 0 <= i < s.len() ==> is_identifier_char(#[trigger] s[i]),
    ensures
        first_non_identifier_char(s) is None,
    decreases s.len(),
{
    if s.len() > 0 {
        assert forall|i: int| 0 <= i < s.drop_first().len() implies is_identifier_char(
            #[trigger] s.drop_first()[i],
        ) by {
            assert(s.drop_first()[i] == s[i + 1]);
        }
        lemma_all_identifier_chars(s.drop_first());
    }
}

/// Validating an accepted identifier again accepts it unchanged: the text
/// that [`ItemIdentifier::new`] keeps is already trimmed and valid.
pub proof fn lemma_identifier_check_idempotent(raw: Seq<char>)
    requires
        identifier_check(raw) is Ok,
    ensures
        identifier_check(identifier_check(raw)->Ok_0) == identifier_check(raw),
{
    let t = identifier_check(raw)->Ok_0;
    lemma_no_non_identifier_char(t);
    assert(is_identifier_char(t.last()));
    lemma_trim_fixed(t);
}

/// A valid identifier is its own trim, and validating it accepts it
/// unchanged: the text an identifier holds rebuilds the same identifier.
pub proof fn lemma_valid_identifier_checks(s: Seq<char>)
    requires
        valid_identifier(s),
    ensures
        trim(s) == s,
        identifier_check(s) == Ok::<Seq<char>, IdentifierErrorView>(s),
{
    assert(is_identifier_char(s.last()));
    lemma_trim_fixed(s);
    lemma_all_identifier_chars(s);
}

/// The bucket-creation rules are narrower than the general identifier rules:
/// every string they accept is also accepted, unchanged, as an identifier.
pub proof fn lemma_bucket_subset_of_identifier(s: Seq<char>)
    requires
        bucket_check(s) is Ok,
    ensures
        identifier_check(s) == Ok::<Seq<char>, IdentifierErrorView>(s),
        forall|i: int| 0 <= i < s.len() ==> is_bucket_char(#[trigger] s[i]),
        ItemIdentifier::MIN_BUCKET_IDENTIFIER_LEN <= s.len() <= ItemIdentifier::MAX_BUCKET_IDENTIFIER_LEN,
{
    lemma_no_non_bucket_char(s);
    assert(is_bucket_char(s.last()));
    lemma_trim_fixed(s);
    assert(vstd::utf8::is_ascii_chars(s));
    vstd::utf8::is_ascii_chars_encode_utf8(s);
    assert forall|i: int| 0 <= i < s.len() implies is_identifier_char(#[trigger] s[i]) by {
        assert(is_bucket_char(s[i]));
    }
    lemma_all_identifier_chars(s);
}

/// Whether a character may appear in a bucket-creation identifier:
/// lowercase ASCII letters, digits, `-` and `.`.
pub fn is_bucket_creation_safe_character(character: char) -> (r: bool)
    ensures
        r == is_bucket_char(character),
{
    ('a' <= character && character <= 'z') || ('0' <= character && character <= '9')
        || character == '-' || character == '.'
}

/// Whether a character may start or end a bucket-creation identifier:
/// lowercase ASCII letters and digits.
pub fn is_bucket_creation_safe_edge_character(character: char) -> (r: bool)
    ensures
        r == is_bucket_edge_char(character),
{
    ('a' <= character && character <= 'z') || ('0' <= character && character <= '9')
}

/// Finds the first character that may not appear in an identifier.
fn find_non_identifier_char(v: &Vec<char>) -> (r: Option<char>)
    ensures
        r == first_non_identifier_char(v@),
{
    let n = v.len();
    let mut i: usize = 0;
    assert(v@.subrange(0, n as int) =~= v@);
    while i < n
        invariant
            n == v@.len(),
            i <= n,
            first_non_identifier_char(v@) == first_non_identifier_char(
                v@.subrange(i as int, n as int),
            ),
        decreases n - i,
    {
        let c = v[i];
        if !(char_is_ascii_alphanumeric(c) || c == '_' || c == '-' || c == '.') {
            return Some(c);
        }
        assert(v@.subrange(i as int, n as int).drop_first() =~= v@.subrange(i + 1, n as int));
        i = i + 1;
    }
    None
}

/// Finds the first character outside the bucket-creation subset.
fn find_non_bucket_char(v: &Vec<char>) -> (r: Option<char>)
    ensures
        r == first_non_bucket_char(v@),
{
    let n = v.len();
    let mut i: usize = 0;
    assert(v@.subrange(0, n as int) =~= v@);
    while i < n
        invariant
            n == v@.len(),
            i <= n,
            first_non_bucket_char(v@) == first_non_bucket_char(v@.subrange(i as int, n as int)),
        decreases n - i,
    {
        let c = v[i];
        if !is_bucket_creation_safe_character(c) {
            return Some(c);
        }
        assert(v@.subrange(i as int, n as int).drop_first() =~= v@.subrange(i + 1, n as int));
        i = i + 1;
    }
    None
}

/// When no character is rejected, every character is an identifier character.
proof fn lemma_no_non_identifier_char(s: Seq<char>)
    requires
        first_non_identifier_char(s) is None,
    ensures
        forall|i: int| 0 <= i < s.len() ==> is_identifier_char(#[trigger] s[i]),
    decreases s.len(),
{
    if s.len() > 0 {
        lemma_no_non_identifier_char(s.drop_first());
        assert forall|i: int| 0 <= i < s.len() implies is_identifier_char(#[trigger] s[i]) by {
            if i > 0 {
                assert(s[i] == s.drop_first()[i - 1]);
            }
        }
    }
}

/// Exec form of [`parses_as_u8`].
fn chars_parse_as_u8(p: &Vec<char>) -> (r: bool)
    ensures
        r == parses_as_u8(p@),
{
    let n = p.len();
    let start: usize = if n > 0 && p[0] == '+' {
        1
    } else {
        0
    };
    let ghost d = if p@.len() > 0 && p@[0] == '+' {
        p@.drop_first()
    } else {
        p@
    };
    assert(d =~= p@.subrange(start as int, n as int));
    if start >= n {
        assert(d.len() == 0);
        return false;
    }
    let mut value: u32 = 0;
    let mut i: usize = start;
    assert(p@.subrange(start as int, start as int) =~= Seq::<char>::empty());
    while i < n
        invariant
            n == p@.len(),
            start <= i <= n,
            d =~= p@.subrange(start as int, n as int),
            d == (if p@.len() > 0 && p@[0] == '+' {
                p@.drop_first()
            } else {
                p@
            }),
            all_digits(p@.subrange(start as int, i as int)),
            value == (if digits_value(p@.subrange(start as int, i as int)) > 255 {
                256
            } else {
                digits_value(p@.subrange(start as int, i as int))
            }),
        decreases n - i,
    {
        let c = p[i];
        if !('0' <= c && c <= '9') {
            assert(p@.subrange(start as int, n as int)[i - start] == c);
            assert(!is_ascii_digit(d[i - start]));
            return false;
        }
        let ghost prev = p@.subrange(start as int, i as int);
        let ghost next = p@.subrange(start as int, i + 1);
        assert(next.drop_last() =~= prev);
        assert(next.last() == c);
        let digit = (c as u32) - ('0' as u32);
        if value <= 255 {
            value = value * 10 + digit;
            if value > 255 {
                value = 256;
            }
        }
        assert(all_digits(next)) by {
            assert forall|j: int| 0 <= j < next.len() implies is_ascii_digit(#[trigger] next[j]) by {
                if j < prev.len() {
                    assert(next[j] == prev[j]);
                }
            }
        }
        i = i + 1;
    }
    assert(p@.subrange(start as int, n as int) =~= d);
    value <= 255
}

/// Whether an identifier has the shape of an IPv4 address: exactly four
/// dot-separated pieces, each of which parses as a `u8`.
pub fn looks_like_ipv4_address(identifier: &str) -> (r: bool)
    ensures
        r == looks_like_ipv4(identifier@),
{
    let v = chars_of(identifier);
    let parts = split_chars(&v, '.');
    if parts.len() != 4 {
        return false;
    }
    let mut i: usize = 0;
    while i < 4
        invariant
            v@ == identifier@,
            parts@.len() == 4 == split_on(v@, '.').len(),
            forall|k: int| 0 <= k < parts@.len() ==> #[trigger] parts@[k]@ == split_on(v@, '.')[k],
            i <= 4,
            forall|j: int| 0 <= j < i ==> parses_as_u8(#[trigger] split_on(v@, '.')[j]),
        decreases 4 - i,
    {
        assert(parts@[i as int]@ == split_on(v@, '.')[i as int]);
        if !chars_parse_as_u8(&parts[i]) {
            return false;
        }
        i = i + 1;
    }
    true
}

/// The message of an identifier error, as its `Display` reads.
pub open spec fn identifier_error_text(e: IdentifierErrorView) -> Seq<char> {
    match e {
        IdentifierErrorView::Empty => "item identifier cannot be empty"@,
        IdentifierErrorView::TooLong { identifier, max } => "item identifier "@ + debug_str(
            identifier,
        ) + " is too long; maximum length is "@ + decimal(max as nat),
        IdentifierErrorView::InvalidStartCharacter { identifier, character } =>
            "invalid first character "@ + debug_char(character) + " in identifier "@ + debug_str(
            identifier,
        ) + "; identifiers must start with an ASCII letter or digit"@,
        IdentifierErrorView::TooShortForBucketCreation { identifier, min } => "item identifier "@
            + debug_str(identifier) + " is too short for bucket creation; minimum length is "@
            + decimal(min as nat),
        IdentifierErrorView::TooLongForBucketCreation { identifier, max } => "item identifier "@
            + debug_str(identifier) + " is too long for bucket creation; maximum length is "@
            + decimal(max as nat),
        IdentifierErrorView::InvalidCharacter { identifier, character } => "invalid character "@
            + debug_char(character) + " in identifier "@ + debug_str(identifier),
        IdentifierErrorView::InvalidBucketCreationCharacter { identifier, character } =>
            "invalid bucket-creation character "@ + debug_char(character) + " in identifier "@
            + debug_str(identifier)
            + "; bucket-creation identifiers may contain only lowercase ASCII letters, digits, periods, and dashes"@,
        IdentifierErrorView::InvalidBucketCreationEdgeCharacter { identifier, character } =>
            "invalid bucket-creation edge character "@ + debug_char(character) + " in identifier "@
            + debug_str(identifier)
            + "; bucket-creation identifiers must start and end with a lowercase ASCII letter or digit"@,
        IdentifierErrorView::AdjacentBucketCreationPeriods { identifier } => "item identifier "@
            + debug_str(identifier)
            + " is invalid for bucket creation; S3 bucket names cannot contain adjacent periods"@,
        IdentifierErrorView::BucketCreationIdentifierLooksLikeIpAddress { identifier } =>
            "item identifier "@ + debug_str(identifier)
            + " is invalid for bucket creation; S3 bucket names cannot be formatted as an IPv4 address"@,
        IdentifierErrorView::PeriodAdjacentBucketCreationDash { identifier } => "item identifier "@
            + debug_str(identifier)
            + " is invalid for bucket creation; S3 bucket names cannot contain periods adjacent to dashes"@,
    }
}

/// `prefix`, the quoted identifier, then `suffix`.
fn quoted_identifier(prefix: &str, identifier: &str, suffix: &str) -> (r: String)
    ensures
        r@ == prefix@ + debug_str(identifier@) + suffix@,
{
    let mut s = prefix.to_owned();
    append_str(&mut s, debug_str_text(identifier).as_str());
    append_str(&mut s, suffix);
    s
}

/// `prefix`, the quoted character, the middle text, the quoted identifier, then `suffix`.
fn quoted_character(prefix: &str, character: char, middle: &str, identifier: &str, suffix: &str) -> (r:
    String)
    ensures
        r@ == prefix@ + debug_char(character) + middle@ + debug_str(identifier@) + suffix@,
{
    let mut s = prefix.to_owned();
    append_str(&mut s, debug_char_text(character).as_str());
    append_str(&mut s, middle);
    append_str(&mut s, debug_str_text(identifier).as_str());
    append_str(&mut s, suffix);
    s
}

impl IdentifierError {
    /// The message of this error, as its `Display` reads.
    pub fn message(&self) -> (r: String)
        ensures
            r@ == identifier_error_text(self@),
    {
        match self {
            IdentifierError::Empty => "item identifier cannot be empty".to_owned(),
            IdentifierError::TooLong { identifier, max } => {
                let mut s = quoted_identifier(
                    "item identifier ",
                    identifier.as_str(),
                    " is too long; maximum length is ",
                );
                append_str(&mut s, u64_to_decimal(*max as u64).as_str());
                s
            },
            IdentifierError::InvalidStartCharacter { identifier, character } => quoted_character(
                "invalid first character ",
                *character,
                " in identifier ",
                identifier.as_str(),
                "; identifiers must start with an ASCII letter or digit",
            ),
            IdentifierError::TooShortForBucketCreation { identifier, min } => {
                let mut s = quoted_identifier(
                    "item identifier ",
                    identifier.as_str(),
                    " is too short for bucket creation; minimum length is ",
                );
                append_str(&mut s, u64_to_decimal(*min as u64).as_str());
                s
            },
            IdentifierError::TooLongForBucketCreation { identifier, max } => {
                let mut s = quoted_identifier(
                    "item identifier ",
                    identifier.as_str(),
                    " is too long for bucket creation; maximum length is ",
                );
                append_str(&mut s, u64_to_decimal(*max as u64).as_str());
                s
            },
            IdentifierError::InvalidCharacter { identifier, character } => {
                let s = quoted_character(
                    "invalid character ",
                    *character,
                    " in identifier ",
                    identifier.as_str(),
                    "",
                );
                proof {
                    reveal_strlit("");
                    let t = "invalid character "@ + debug_char(*character) + " in identifier "@
                        + debug_str(identifier@);
                    assert(t + ""@ =~= t);
                }
                s
            },
            IdentifierError::InvalidBucketCreationCharacter { identifier, character } =>
                quoted_character(
                "invalid bucket-creation character ",
                *character,
                " in identifier ",
                identifier.as_str(),
                "; bucket-creation identifiers may contain only lowercase ASCII letters, digits, periods, and dashes",
            ),
            IdentifierError::InvalidBucketCreationEdgeCharacter { identifier, character } =>
                quoted_character(
                "invalid bucket-creation edge character ",
                *character,
                " in identifier ",
                identifier.as_str(),
                "; bucket-creation identifiers must start and end with a lowercase ASCII letter or digit",
            ),
            IdentifierError::AdjacentBucketCreationPeriods { identifier } => quoted_identifier(
                "item identifier ",
                identifier.as_str(),
                " is invalid for bucket creation; S3 bucket names cannot contain adjacent periods",
            ),
            IdentifierError::BucketCreationIdentifierLooksLikeIpAddress { identifier } =>
                quoted_identifier(
                "item identifier ",
                identifier.as_str(),
                " is invalid for bucket creation; S3 bucket names cannot be formatted as an IPv4 address",
            ),
            IdentifierError::PeriodAdjacentBucketCreationDash { identifier } => quoted_identifier(
                "item identifier ",
                identifier.as_str(),
                " is invalid for bucket creation; S3 bucket names cannot contain periods adjacent to dashes",
            ),
        }
    }
}

} // verus!
