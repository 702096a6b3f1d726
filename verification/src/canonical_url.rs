//! The canonical form of a locator, for comparison only.

use vstd::prelude::*;
use vstd::string::StrSliceExecFns;
use vstd::string::StringExecFns;

use crate::locator::{host_text, url_parse, Locator, LocatorError, LocatorView, Refusal};
use crate::stable_hash::{
    hash_input, is_digit, lemma_short_hash_shape, short_hash, short_hash_of, sip_hash,
    SHORT_HASH_LEN,
};
use crate::text::{
    chars_of, ends_with, has_suffix, lower_char, lowercase, same_text, same_text_ignoring_case,
    to_lowercase,
};

verus! {

/// Whether the locator names the hosting domain on which neither the case
/// of a path nor the scheme tells two repositories apart. The host is
/// compared without regard to case.
pub open spec fn is_hosted(locator: LocatorView) -> bool {
    match locator.host {
        Some(host) => lowercase(host) == lowercase("github.com"@),
        None => false,
    }
}

/// Whether the scheme has to be rewritten to the secure one.
pub open spec fn needs_secure_scheme(locator: LocatorView) -> bool {
    is_hosted(locator) && locator.scheme != "https"@
}

/// The path without one trailing separator. The root path stays.
pub open spec fn strip_separator(path: Seq<char>) -> Seq<char> {
    if path.len() > 1 && path.last() == '/' {
        path.drop_last()
    } else {
        path
    }
}

/// The path without the suffix `.git`, where it ends with it.
pub open spec fn strip_repository_suffix(path: Seq<char>) -> Seq<char> {
    if ends_with(path, ".git"@) {
        path.take(path.len() - ".git"@.len())
    } else {
        path
    }
}

/// The text that is parsed anew to give a locator the secure scheme: the
/// locator without its trailing separator, under the scheme `https`.
pub open spec fn secure_text(locator: LocatorView) -> Seq<char> {
    "https"@ + locator.before_host + host_text(locator.host) + locator.after_host
        + strip_separator(locator.path) + locator.suffix
}

/// A host in lower case, where there is one.
pub open spec fn lowercase_host(host: Option<Seq<char>>) -> Option<Seq<char>> {
    match host {
        Some(host) => Some(lowercase(host)),
        None => None,
    }
}

/// The last two steps. Where the locator is hosted, the host and the
/// path are put in lower case; the user information, the port, the query
/// and the fragment keep their case. Then the repository suffix is
/// stripped from the path.
pub open spec fn finish(locator: LocatorView, hosted: bool) -> LocatorView {
    if hosted {
        LocatorView {
            host: lowercase_host(locator.host),
            path: strip_repository_suffix(lowercase(locator.path)),
            ..locator
        }
    } else {
        LocatorView { path: strip_repository_suffix(locator.path), ..locator }
    }
}

/// The locator without the trailing separator of its path.
pub open spec fn stripped(locator: LocatorView) -> LocatorView {
    LocatorView { path: strip_separator(locator.path), ..locator }
}

/// The locator under the secure scheme, where `rewritten` is what the
/// parser made of [`secure_text`]: the parts that the parser read, or,
/// where it read none or no hierarchical path, those of the locator as it
/// stands without its trailing separator.
pub open spec fn secured(locator: LocatorView, rewritten: Option<LocatorView>) -> LocatorView {
    let parts = match rewritten {
        Some(parts) => if parts.opaque {
            stripped(locator)
        } else {
            parts
        },
        None => stripped(locator),
    };
    LocatorView { scheme: "https"@, ..parts }
}

/// The canonical form of `locator`, where `rewritten` is what the parser
/// made of [`secure_text`]. Nothing is read from `rewritten` unless the
/// scheme has to be rewritten. A locator is refused where it has no
/// hierarchical path, and nowhere else.
pub open spec fn normalize(locator: LocatorView, rewritten: Option<LocatorView>) -> Result<
    LocatorView,
    Refusal,
> {
    if locator.opaque {
        Err(Refusal::InvalidLocator { text: locator.text() })
    } else if needs_secure_scheme(locator) {
        Ok(finish(secured(locator, rewritten), true))
    } else {
        Ok(finish(stripped(locator), is_hosted(locator)))
    }
}

/// The path without the separators it ends with.
pub open spec fn trim_separators(path: Seq<char>) -> Seq<char>
    decreases path.len(),
{
    if path.len() > 0 && path.last() == '/' {
        trim_separators(path.drop_last())
    } else {
        path
    }
}

/// What follows the last separator of the path.
pub open spec fn tail_segment(path: Seq<char>) -> Seq<char>
    decreases path.len(),
{
    if path.len() == 0 || path.last() == '/' {
        Seq::empty()
    } else {
        tail_segment(path.drop_last()).push(path.last())
    }
}

/// The last segment of the path that is not empty; empty where the path
/// has none.
pub open spec fn last_segment(path: Seq<char>) -> Seq<char> {
    tail_segment(trim_separators(path))
}

/// The fingerprint of a canonical form: that of its path and of the short
/// hash of its text.
pub open spec fn ident_of(canonical: LocatorView) -> Seq<char> {
    fingerprint(canonical.path, short_hash_of(canonical.text()))
}

/// The fingerprint made of a path and a rendered hash: the last segment, a
/// hyphen and the hash, or the hash alone where the path has no segment.
pub open spec fn fingerprint(path: Seq<char>, hash: Seq<char>) -> Seq<char> {
    if last_segment(path).len() == 0 {
        hash
    } else {
        last_segment(path) + "-"@ + hash
    }
}

/// The value of a locator that may be missing.
pub open spec fn view_of(locator: Option<Locator>) -> Option<LocatorView> {
    match locator {
        Some(locator) => Some(locator@),
        None => None,
    }
}

/// Whether the outcome of a constructor is the one that was specified.
pub open spec fn agrees(
    made: Result<CanonicalUrl, LocatorError>,
    specified: Result<LocatorView, Refusal>,
) -> bool {
    match made {
        Ok(canonical) => specified == Ok::<LocatorView, Refusal>(canonical@),
        Err(error) => specified == Err::<LocatorView, Refusal>(error@),
    }
}

/// The canonical form of a locator.
///
/// It serves comparison only: two locators that name the same repository
/// have the same canonical form, and nothing is to be fetched from it.
#[derive(Debug, Eq, PartialOrd, Ord, Hash)]
pub struct CanonicalUrl {
    text: String,
    locator: Locator,
}

impl View for CanonicalUrl {
    type V = LocatorView;

    closed spec fn view(&self) -> LocatorView {
        self.locator@
    }
}

impl PartialEq for CanonicalUrl {
    /// Two canonical forms are equal where all their parts are.
    fn eq(&self, other: &CanonicalUrl) -> (same: bool) {
        self.locator == other.locator
    }
}

impl vstd::std_specs::cmp::PartialEqSpecImpl for CanonicalUrl {
    open spec fn obeys_eq_spec() -> bool {
        true
    }

    open spec fn eq_spec(&self, other: &CanonicalUrl) -> bool {
        self@ == other@
    }
}

impl Clone for CanonicalUrl {
    fn clone(&self) -> (copy: CanonicalUrl)
        ensures
            copy@ == self@,
    {
        proof {
            use_type_invariant(self);
        }
        CanonicalUrl {
            text: self.text.clone(),
            locator: Locator {
                scheme: self.locator.scheme.clone(),
                before_host: self.locator.before_host.clone(),
                host: match &self.locator.host {
                    Some(host) => Some(host.clone()),
                    None => None,
                },
                after_host: self.locator.after_host.clone(),
                path: self.locator.path.clone(),
                suffix: self.locator.suffix.clone(),
                opaque: self.locator.opaque,
            },
        }
    }
}

impl CanonicalUrl {
    #[verifier::type_invariant]
    spec fn well_formed(self) -> bool {
        &&& self.text@ == self.locator@.text()
        &&& !self.locator.opaque
    }

    /// Normalizes a locator. A locator is refused where it has no
    /// hierarchical path, and nowhere else. Where the scheme has to be
    /// rewritten, the locator is parsed anew under the secure scheme;
    /// should the parser read no hierarchical locator from it, the scheme
    /// is rewritten in the locator as it stands.
    pub fn new(url: &Locator) -> (made: Result<CanonicalUrl, LocatorError>)
        ensures
            agrees(made, normalize(url@, url_parse(secure_text(url@)))),
            made is Err <==> url.opaque,
            made matches Err(error) ==> error@ == (Refusal::InvalidLocator { text: url@.text() }),
            made matches Ok(canonical) ==> !canonical@.opaque,
    {
        if !url.opaque && hosted(url) && !same_text(url.scheme.as_str(), "https") {
            let rewritten = match Locator::parse(secure_text_of(url).as_str()) {
                Ok(secured) => Some(secured),
                Err(_) => None,
            };
            CanonicalUrl::from_rewritten(url, rewritten)
        } else {
            CanonicalUrl::from_rewritten(url, None)
        }
    }

    /// Normalizes a locator, given what the parser made of it under the
    /// secure scheme. What the parser made is read only where the scheme
    /// has to be rewritten, and set aside where it has no hierarchical
    /// path.
    pub fn from_rewritten(url: &Locator, rewritten: Option<Locator>) -> (made: Result<
        CanonicalUrl,
        LocatorError,
    >)
        ensures
            agrees(made, normalize(url@, view_of(rewritten))),
            made is Err <==> url.opaque,
            made matches Err(error) ==> error@ == (Refusal::InvalidLocator { text: url@.text() }),
            made matches Ok(canonical) ==> !canonical@.opaque,
    {
        if url.opaque {
            return Err(LocatorError::InvalidLocator { text: url.to_text() });
        }
        let hosted = hosted(url);
        if hosted && !same_text(url.scheme.as_str(), "https") {
            let parts = match rewritten {
                Some(parts) => if parts.opaque {
                    without_trailing_separator(url)
                } else {
                    parts
                },
                None => without_trailing_separator(url),
            };
            let secured = Locator {
                scheme: String::from_str("https"),
                before_host: parts.before_host,
                host: parts.host,
                after_host: parts.after_host,
                path: parts.path,
                suffix: parts.suffix,
                opaque: false,
            };
            Ok(CanonicalUrl::finished(secured, true))
        } else {
            Ok(CanonicalUrl::finished(without_trailing_separator(url), hosted))
        }
    }

    /// Takes the last two steps on a locator and stores the outcome.
    fn finished(locator: Locator, hosted: bool) -> (canonical: CanonicalUrl)
        requires
            !locator.opaque,
        ensures
            canonical@ == finish(locator@, hosted),
    {
        let locator = if hosted {
            Locator {
                scheme: locator.scheme,
                before_host: locator.before_host,
                host: match locator.host {
                    Some(host) => Some(to_lowercase(host.as_str())),
                    None => None,
                },
                after_host: locator.after_host,
                path: String::from_str(
                    without_repository_suffix(to_lowercase(locator.path.as_str()).as_str()),
                ),
                suffix: locator.suffix,
                opaque: false,
            }
        } else {
            Locator {
                scheme: locator.scheme,
                before_host: locator.before_host,
                host: locator.host,
                after_host: locator.after_host,
                path: String::from_str(without_repository_suffix(locator.path.as_str())),
                suffix: locator.suffix,
                opaque: false,
            }
        };
        let text = locator.to_text();
        CanonicalUrl { text, locator }
    }

    /// The fingerprint: the last segment of the path, a hyphen and the
    /// short hash of the canonical text, or the hash alone where the path
    /// has no segment.
    pub fn ident(&self) -> (ident: String)
        ensures
            ident@ == ident_of(self@),
    {
        proof {
            use_type_invariant(self);
        }
        let hash = short_hash(self.text.as_str());
        fingerprint_of(self.locator.path.as_str(), hash.as_str())
    }

    /// The canonical text, for comparison and display only.
    pub fn as_str(&self) -> (text: &str)
        ensures
            text@ == self@.text(),
    {
        proof {
            use_type_invariant(self);
        }
        self.text.as_str()
    }
}

/// Whether the locator names the hosting domain.
fn hosted(url: &Locator) -> (hosted: bool)
    ensures
        hosted == is_hosted(url@),
{
    match &url.host {
        Some(host) => same_text_ignoring_case(host.as_str(), "github.com"),
        None => false,
    }
}

/// A hierarchical locator without the trailing separator of its path.
fn without_trailing_separator(url: &Locator) -> (plain: Locator)
    requires
        !url.opaque,
    ensures
        plain@ == stripped(url@),
{
    Locator {
        scheme: url.scheme.clone(),
        before_host: url.before_host.clone(),
        host: match &url.host {
            Some(host) => Some(host.clone()),
            None => None,
        },
        after_host: url.after_host.clone(),
        path: String::from_str(without_separator(url.path.as_str())),
        suffix: url.suffix.clone(),
        opaque: false,
    }
}

/// The text that is parsed anew under the secure scheme.
fn secure_text_of(url: &Locator) -> (text: String)
    ensures
        text@ == secure_text(url@),
{
    let host = match &url.host {
        Some(host) => host.as_str(),
        None => "",
    };
    proof {
        reveal_strlit("");
    }
    String::from_str("https").concat(url.before_host.as_str()).concat(host).concat(
        url.after_host.as_str(),
    ).concat(without_separator(url.path.as_str())).concat(url.suffix.as_str())
}

/// The path without one trailing separator.
fn without_separator(path: &str) -> (stripped: &str)
    ensures
        stripped@ == strip_separator(path@),
{
    let length = path.unicode_len();
    if length > 1 && path.get_char(length - 1) == '/' {
        path.substring_char(0, length - 1)
    } else {
        path
    }
}

/// The path without the suffix `.git`.
fn without_repository_suffix(path: &str) -> (stripped: &str)
    ensures
        stripped@ == strip_repository_suffix(path@),
{
    proof {
        reveal_strlit(".git");
    }
    if has_suffix(path, ".git") {
        path.substring_char(0, path.unicode_len() - 4)
    } else {
        path
    }
}

/// The last segment of the path that is not empty.
pub fn last_segment_of(path: &str) -> (segment: &str)
    ensures
        segment@ == last_segment(path@),
{
    let chars = chars_of(path);
    let mut end: usize = chars.len();
    assert(path@.take(end as int) =~= path@);
    while end > 0 && chars[end - 1] == '/'
        invariant
            chars@ == path@,
            end <= chars.len(),
            trim_separators(path@) == trim_separators(path@.take(end as int)),
        decreases end,
    {
        assert(path@.take(end as int).drop_last() =~= path@.take(end - 1));
        end = end - 1;
    }
    let ghost trimmed = path@.take(end as int);
    let mut start: usize = end;
    assert(trimmed.take(start as int) =~= trimmed);
    while start > 0 && chars[start - 1] != '/'
        invariant
            chars@ == path@,
            start <= end <= chars.len(),
            trimmed == path@.take(end as int),
            tail_segment(trimmed) == tail_segment(trimmed.take(start as int)) + trimmed.subrange(
                start as int,
                end as int,
            ),
        decreases start,
    {
        assert(trimmed.take(start as int).drop_last() =~= trimmed.take(start - 1));
        start = start - 1;
    }
    path.substring_char(start, end)
}

/// Puts a segment and a rendered hash together.
pub fn fingerprint_of(path: &str, hash: &str) -> (ident: String)
    ensures
        ident@ == fingerprint(path@, hash@),
{
    let segment = last_segment_of(path);
    if segment.unicode_len() == 0 {
        String::from_str(hash)
    } else {
        String::from_str(segment).concat("-").concat(hash)
    }
}

/// Lower case is a fixed point: a text in lower case stays as it is.
pub proof fn lemma_lowercase_idempotent(text: Seq<char>)
    ensures
        lowercase(lowercase(text)) == lowercase(text),
{
}

/// Lower case and cutting commute: the front of a text in lower case is
/// the lower case of its front.
pub proof fn lemma_lowercase_take(text: Seq<char>, length: int)
    requires
        0 <= length <= text.len(),
    ensures
        lowercase(text.take(length)) == lowercase(text).take(length),
{
}

/// Normalizing is idempotent: the canonical form of a canonical form is
/// that form itself, whatever the parser makes of it. This holds of every
/// canonical form whose path has neither a trailing separator nor the
/// repository suffix left; one suffix and one separator are stripped, so
/// a path that ended with two keeps one.
pub proof fn lemma_normalize_idempotent(
    locator: LocatorView,
    rewritten: Option<LocatorView>,
    again: Option<LocatorView>,
)
    requires
        normalize(locator, rewritten) is Ok,
        strip_separator(normalize(locator, rewritten)->Ok_0.path) == normalize(
            locator,
            rewritten,
        )->Ok_0.path,
        strip_repository_suffix(normalize(locator, rewritten)->Ok_0.path) == normalize(
            locator,
            rewritten,
        )->Ok_0.path,
    ensures
        normalize(normalize(locator, rewritten)->Ok_0, again) == normalize(locator, rewritten),
{
    let canonical = normalize(locator, rewritten)->Ok_0;
    if is_hosted(canonical) {
        // Host and path were put in lower case before the suffix was cut
        // off.
        let before = if needs_secure_scheme(locator) {
            secured(locator, rewritten)
        } else {
            stripped(locator)
        };
        assert(canonical == finish(before, true));
        if before.host is Some {
            lemma_lowercase_idempotent(before.host->Some_0);
        }
        lemma_lowercase_idempotent(before.path);
        if ends_with(lowercase(before.path), ".git"@) {
            lemma_lowercase_take(
                lowercase(before.path),
                lowercase(before.path).len() - ".git"@.len(),
            );
        }
    }
}

/// A locator is refused where it has no hierarchical path, and nowhere
/// else: whatever the parser makes of a rewritten locator, every locator
/// with a hierarchical path has a canonical form, and that form has a
/// hierarchical path too.
pub proof fn lemma_refused_only_where_opaque(locator: LocatorView, rewritten: Option<LocatorView>)
    ensures
        normalize(locator, rewritten) is Err <==> locator.opaque,
        locator.opaque ==> normalize(locator, rewritten) == Err::<LocatorView, Refusal>(
            Refusal::InvalidLocator { text: locator.text() },
        ),
        !locator.opaque ==> !normalize(locator, rewritten)->Ok_0.opaque,
{
}

/// On the hosting domain the case of the host does not tell two locators
/// apart: hosts that agree but for case have the same canonical form.
/// This is stated of locators that have the secure scheme already.
pub proof fn lemma_host_case_ignored_when_hosted(
    locator: LocatorView,
    other_host: Seq<char>,
    rewritten: Option<LocatorView>,
)
    requires
        !locator.opaque,
        is_hosted(locator),
        locator.scheme == "https"@,
        lowercase(locator.host->Some_0) == lowercase(other_host),
    ensures
        normalize(LocatorView { host: Some(other_host), ..locator }, rewritten) == normalize(
            locator,
            rewritten,
        ),
{
}

/// Nothing but the scheme, the host and the path is touched: the user
/// information, the port, the query and the fragment of a canonical form
/// are those of the locator where it keeps its scheme, and those that the
/// parser read where the scheme is rewritten. The host is kept off the
/// hosting domain; on it, the host is put in lower case, so that a host
/// in lower case is kept too.
pub proof fn lemma_rest_is_kept(locator: LocatorView, rewritten: Option<LocatorView>)
    requires
        !locator.opaque,
    ensures
        ({
            let canonical = normalize(locator, rewritten)->Ok_0;
            let source = if needs_secure_scheme(locator) {
                secured(locator, rewritten)
            } else {
                locator
            };
            &&& canonical.before_host == source.before_host
            &&& canonical.after_host == source.after_host
            &&& canonical.suffix == source.suffix
            &&& canonical.scheme == source.scheme
            &&& canonical.host == if is_hosted(locator) {
                lowercase_host(source.host)
            } else {
                source.host
            }
            &&& lowercase_host(source.host) == source.host ==> canonical.host == source.host
        }),
{
}

/// A trailing separator does not tell two locators apart: with or without
/// it the canonical form is the same.
pub proof fn lemma_trailing_separator_ignored(locator: LocatorView, rewritten: Option<LocatorView>)
    requires
        !locator.opaque,
        locator.path.len() > 0,
        locator.path.last() != '/',
    ensures
        normalize(LocatorView { path: locator.path.push('/'), ..locator }, rewritten) == normalize(
            locator,
            rewritten,
        ),
{
    assert(locator.path.push('/').drop_last() =~= locator.path);
}

/// The repository suffix does not tell two locators apart: with or without
/// `.git` at the end of the path the canonical form is the same. This is
/// stated of locators that keep their scheme, and of paths that end in
/// neither a separator nor a suffix already.
pub proof fn lemma_repository_suffix_ignored(locator: LocatorView, rewritten: Option<LocatorView>)
    requires
        !locator.opaque,
        !needs_secure_scheme(locator),
        strip_separator(locator.path) == locator.path,
        !ends_with(
            if is_hosted(locator) {
                lowercase(locator.path)
            } else {
                locator.path
            },
            ".git"@,
        ),
    ensures
        normalize(LocatorView { path: locator.path + ".git"@, ..locator }, rewritten) == normalize(
            locator,
            rewritten,
        ),
{
    reveal_strlit(".git");
    let path = locator.path;
    let longer = path + ".git"@;
    assert(lowercase(longer) =~= lowercase(path) + ".git"@);
    assert(longer.skip(longer.len() - 4) =~= ".git"@);
    assert(longer.take(longer.len() - 4) =~= path);
    assert((lowercase(path) + ".git"@).skip(lowercase(path).len() as int) =~= ".git"@);
    assert((lowercase(path) + ".git"@).take(lowercase(path).len() as int) =~= lowercase(path));
}

/// On the hosting domain the case of a path does not tell two locators
/// apart: paths that agree but for case have the same canonical form.
/// This is stated of locators that have the secure scheme already.
pub proof fn lemma_case_ignored_when_hosted(
    locator: LocatorView,
    other_path: Seq<char>,
    rewritten: Option<LocatorView>,
)
    requires
        !locator.opaque,
        is_hosted(locator),
        locator.scheme == "https"@,
        lowercase(locator.path) == lowercase(other_path),
    ensures
        normalize(LocatorView { path: other_path, ..locator }, rewritten) == normalize(
            locator,
            rewritten,
        ),
{
    let path = locator.path;
    assert(path.len() == other_path.len()) by {
        assert(lowercase(path).len() == path.len());
        assert(lowercase(other_path).len() == other_path.len());
    }
    if path.len() > 0 {
        assert(lowercase(path).last() == lower_char(path.last()));
        assert(lowercase(other_path).last() == lower_char(other_path.last()));
        lemma_lowercase_take(path, path.len() - 1);
        lemma_lowercase_take(other_path, other_path.len() - 1);
    }
}

/// On the hosting domain the scheme does not tell two locators apart: a
/// locator whose scheme has to be rewritten has the canonical form of the
/// secure locator that the parser reads from its rewritten text. This is
/// stated of a rewritten locator that is still on the hosting domain and
/// has no trailing separator.
pub proof fn lemma_scheme_ignored_when_hosted(
    locator: LocatorView,
    rewritten: LocatorView,
    again: Option<LocatorView>,
)
    requires
        !locator.opaque,
        needs_secure_scheme(locator),
        !rewritten.opaque,
        is_hosted(rewritten),
        rewritten.scheme == "https"@,
        strip_separator(rewritten.path) == rewritten.path,
    ensures
        normalize(locator, Some(rewritten)) == normalize(rewritten, again),
{
}

/// Names that differ are told apart: off the hosting domain two locators
/// that differ in their paths, neither path with a trailing separator or
/// the repository suffix, have canonical forms that differ.
pub proof fn lemma_distinct_paths_stay_distinct(
    locator: LocatorView,
    other_path: Seq<char>,
    rewritten: Option<LocatorView>,
)
    requires
        !locator.opaque,
        !is_hosted(locator),
        locator.path != other_path,
        strip_separator(locator.path) == locator.path,
        strip_separator(other_path) == other_path,
        !ends_with(locator.path, ".git"@),
        !ends_with(other_path, ".git"@),
    ensures
        normalize(LocatorView { path: other_path, ..locator }, rewritten) != normalize(
            locator,
            rewritten,
        ),
{
}

/// A last segment holds no separator.
pub proof fn lemma_last_segment_has_no_separator(path: Seq<char>)
    ensures
        forall|index: int|
            0 <= index < last_segment(path).len() ==> #[trigger] last_segment(path)[index] != '/',
{
    lemma_tail_segment_has_no_separator(trim_separators(path));
}

proof fn lemma_tail_segment_has_no_separator(path: Seq<char>)
    ensures
        forall|index: int|
            0 <= index < tail_segment(path).len() ==> #[trigger] tail_segment(path)[index] != '/',
    decreases path.len(),
{
    if path.len() > 0 && path.last() != '/' {
        lemma_tail_segment_has_no_separator(path.drop_last());
        let shorter = tail_segment(path.drop_last());
        assert forall|index: int| 0 <= index < tail_segment(path).len() implies #[trigger] tail_segment(
            path,
        )[index] != '/' by {
            if index < shorter.len() {
                assert(tail_segment(path)[index] == shorter[index]);
            }
        }
    }
}

/// Equal canonical forms have equal fingerprints: the fingerprint is made
/// of the canonical form and of nothing else.
pub proof fn lemma_ident_deterministic(left: CanonicalUrl, right: CanonicalUrl)
    requires
        left@ == right@,
    ensures
        ident_of(left@) == ident_of(right@),
{
}

/// Where the path has no segment the fingerprint is the hash alone: it has
/// the width of a hash and begins with a digit of it, not with a hyphen.
/// Where the path has one, the fingerprint is the segment, one hyphen and
/// the hash.
pub proof fn lemma_ident_shape(canonical: LocatorView)
    ensures
        last_segment(canonical.path).len() == 0 ==> ident_of(canonical) == short_hash_of(
            canonical.text(),
        ) && ident_of(canonical).len() == SHORT_HASH_LEN && is_digit(ident_of(canonical)[0]),
        last_segment(canonical.path).len() > 0 ==> ident_of(canonical) == last_segment(
            canonical.path,
        ).push('-') + short_hash_of(canonical.text()),
{
    reveal_strlit("-");
    lemma_short_hash_shape(sip_hash(hash_input(canonical.text())));
}

} // verus!
