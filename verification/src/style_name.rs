//! Names of style properties: hyphenation, escaping for an attribute value,
//! the unitless allowlist, and the memo of processed names.

use crate::string_map::StringMap;
use crate::text::{chars_of, push_char, spec_starts_with, starts_with_two_hyphens, str_eq};
use vstd::prelude::*;

verus! {

/// What one character becomes in text placed inside an HTML attribute.
pub open spec fn escape_html_char(c: char) -> Seq<char> {
    if c == '"' {
        seq!['&', 'q', 'u', 'o', 't', ';']
    } else if c == '&' {
        seq!['&', 'a', 'm', 'p', ';']
    } else if c == '\'' {
        seq!['&', '#', 'x', '2', '7', ';']
    } else if c == '<' {
        seq!['&', 'l', 't', ';']
    } else if c == '>' {
        seq!['&', 'g', 't', ';']
    } else {
        seq![c]
    }
}

/// `s` with the five characters that are special in HTML replaced by their
/// entities, everything else kept.
pub open spec fn spec_escape_html(s: Seq<char>) -> Seq<char>
    decreases s.len(),
{
    if s.len() == 0 {
        Seq::empty()
    } else {
        spec_escape_html(s.drop_last()) + escape_html_char(s.last())
    }
}

/// Whether `c` is one of `A` to `Z`.
pub open spec fn is_ascii_upper(c: char) -> bool {
    'A' <= c <= 'Z'
}

/// The lower-case letter of an upper-case ASCII letter.
pub open spec fn ascii_lower(c: char) -> char {
    ((c as int) + 32) as char
}

/// What one character of a camel-cased name becomes: an upper-case letter
/// turns into a hyphen and its lower-case form.
pub open spec fn hyphenate_char(c: char) -> Seq<char> {
    if is_ascii_upper(c) {
        seq!['-', ascii_lower(c)]
    } else {
        seq![c]
    }
}

/// Every character of `s` hyphenated in turn.
pub open spec fn hyphenate_body(s: Seq<char>) -> Seq<char>
    decreases s.len(),
{
    if s.len() == 0 {
        Seq::empty()
    } else {
        hyphenate_body(s.drop_last()) + hyphenate_char(s.last())
    }
}

/// Whether the name carries the `ms` vendor prefix: `ms` followed by an
/// upper-case letter.
pub open spec fn has_ms_prefix(s: Seq<char>) -> bool {
    s.len() >= 3 && s[0] == 'm' && s[1] == 's' && is_ascii_upper(s[2])
}

/// The hyphenated form of a camel-cased property name. A name with the
/// `ms` prefix gets a leading hyphen.
pub open spec fn spec_hyphenate_style_name(s: Seq<char>) -> Seq<char> {
    if has_ms_prefix(s) {
        seq!['-'] + hyphenate_body(s)
    } else {
        hyphenate_body(s)
    }
}

/// The form in which a property name is written into a style attribute:
/// escaped, and hyphenated unless it names a custom property (`--x`).
pub open spec fn spec_process_style_name(s: Seq<char>) -> Seq<char> {
    if spec_starts_with(s, seq!['-', '-']) {
        spec_escape_html(s)
    } else {
        spec_escape_html(spec_hyphenate_style_name(s))
    }
}

fn escape_html_chars(chars: &Vec<char>) -> (r: String)
    ensures
        r@ == spec_escape_html(chars@),
{
    let mut out = String::new();
    let mut i: usize = 0;
    while i < chars.len()
        invariant
            i <= chars.len(),
            out@ == spec_escape_html(chars@.take(i as int)),
        decreases chars.len() - i,
    {
        let c = chars[i];
        proof {
            assert(chars@.take(i + 1).drop_last() =~= chars@.take(i as int));
        }
        if c == '"' {
            out.append("&quot;");
            proof {
                reveal_strlit("&quot;");
                assert("&quot;"@ =~= escape_html_char(c));
            }
        } else if c == '&' {
            out.append("&amp;");
            proof {
                reveal_strlit("&amp;");
                assert("&amp;"@ =~= escape_html_char(c));
            }
        } else if c == '\'' {
            out.append("&#x27;");
            proof {
                reveal_strlit("&#x27;");
                assert("&#x27;"@ =~= escape_html_char(c));
            }
        } else if c == '<' {
            out.append("&lt;");
            proof {
                reveal_strlit("&lt;");
                assert("&lt;"@ =~= escape_html_char(c));
            }
        } else if c == '>' {
            out.append("&gt;");
            proof {
                reveal_strlit("&gt;");
                assert("&gt;"@ =~= escape_html_char(c));
            }
        } else {
            push_char(&mut out, c);
            assert(out@ =~= spec_escape_html(chars@.take(i as int)) + escape_html_char(c));
        }
        i += 1;
    }
    proof {
        assert(chars@.take(chars.len() as int) =~= chars@);
    }
    out
}

/// Replaces `"`, `&`, `'`, `<` and `>` by their HTML entities.
pub fn escape_html(value: String) -> (r: String)
    ensures
        r@ == spec_escape_html(value@),
{
    let chars = chars_of(value.as_str());
    escape_html_chars(&chars)
}

fn hyphenate_chars(name: &Vec<char>) -> (r: Vec<char>)
    ensures
        r@ == spec_hyphenate_style_name(name@),
{
    let mut out: Vec<char> = Vec::new();
    let prefixed = name.len() >= 3 && name[0] == 'm' && name[1] == 's' && name[2] >= 'A'
        && name[2] <= 'Z';
    if prefixed {
        out.push('-');
    }
    let ghost lead = out@;
    let mut i: usize = 0;
    while i < name.len()
        invariant
            i <= name.len(),
            out@ == lead + hyphenate_body(name@.take(i as int)),
        decreases name.len() - i,
    {
        let c = name[i];
        proof {
            assert(name@.take(i + 1).drop_last() =~= name@.take(i as int));
        }
        if c >= 'A' && c <= 'Z' {
            out.push('-');
            out.push(((c as u8) + 32) as char);
        } else {
            out.push(c);
        }
        assert(out@ =~= lead + (hyphenate_body(name@.take(i as int)) + hyphenate_char(c)));
        i += 1;
    }
    proof {
        assert(name@.take(name.len() as int) =~= name@);
        assert(seq!['-'] =~= Seq::<char>::empty().push('-'));
    }
    out
}

/// Hyphenates a camel-cased property name: `backgroundColor` becomes
/// `background-color`, `msTransition` becomes `-ms-transition`.
pub fn hyphenate_style_name(name: &str) -> (r: String)
    ensures
        r@ == spec_hyphenate_style_name(name@),
{
    let chars = chars_of(name);
    let out = hyphenate_chars(&chars);
    crate::text::string_of(&out)
}

/// The property names whose numeric values are written without a unit.
pub open spec fn unitless_numbers() -> Seq<Seq<char>> {
    seq![
        "animationIterationCount"@,
        "aspectRatio"@,
        "borderImageOutset"@,
        "borderImageSlice"@,
        "borderImageWidth"@,
        "boxFlex"@,
        "boxFlexGroup"@,
        "boxOrdinalGroup"@,
        "columnCount"@,
        "columns"@,
        "flex"@,
        "flexGrow"@,
        "flexPositive"@,
        "flexShrink"@,
        "flexNegative"@,
        "flexOrder"@,
        "gridArea"@,
        "gridRow"@,
        "gridRowEnd"@,
        "gridRowSpan"@,
        "gridRowStart"@,
        "gridColumn"@,
        "gridColumnEnd"@,
        "gridColumnSpan"@,
        "gridColumnStart"@,
        "fontWeight"@,
        "lineClamp"@,
        "lineHeight"@,
        "opacity"@,
        "order"@,
        "orphans"@,
        "scale"@,
        "tabSize"@,
        "widows"@,
        "zIndex"@,
        "zoom"@,
        "fillOpacity"@,
        "floodOpacity"@,
        "stopOpacity"@,
        "strokeDasharray"@,
        "strokeDashoffset"@,
        "strokeMiterlimit"@,
        "strokeOpacity"@,
        "strokeWidth"@,
        "MozAnimationIterationCount"@,
        "MozBoxFlex"@,
        "MozBoxFlexGroup"@,
        "MozLineClamp"@,
        "msAnimationIterationCount"@,
        "msFlex"@,
        "msZoom"@,
        "msFlexGrow"@,
        "msFlexNegative"@,
        "msFlexOrder"@,
        "msFlexPositive"@,
        "msFlexShrink"@,
        "msGridColumn"@,
        "msGridColumnSpan"@,
        "msGridRow"@,
        "msGridRowSpan"@,
        "WebkitAnimationIterationCount"@,
        "WebkitBoxFlex"@,
        "WebKitBoxFlexGroup"@,
        "WebkitBoxOrdinalGroup"@,
        "WebkitColumnCount"@,
        "WebkitColumns"@,
        "WebkitFlex"@,
        "WebkitFlexGrow"@,
        "WebkitFlexPositive"@,
        "WebkitFlexShrink"@,
        "WebkitLineClamp"@,
    ]
}

fn unitless_number_list() -> (r: Vec<&'static str>)
    ensures
        r@.len() == unitless_numbers().len(),
        forall|i: int| 0 <= i < r@.len() ==> (#[trigger] r@[i])@ == unitless_numbers()[i],
{
    vec![
        "animationIterationCount",
        "aspectRatio",
        "borderImageOutset",
        "borderImageSlice",
        "borderImageWidth",
        "boxFlex",
        "boxFlexGroup",
        "boxOrdinalGroup",
        "columnCount",
        "columns",
        "flex",
        "flexGrow",
        "flexPositive",
        "flexShrink",
        "flexNegative",
        "flexOrder",
        "gridArea",
        "gridRow",
        "gridRowEnd",
        "gridRowSpan",
        "gridRowStart",
        "gridColumn",
        "gridColumnEnd",
        "gridColumnSpan",
        "gridColumnStart",
        "fontWeight",
        "lineClamp",
        "lineHeight",
        "opacity",
        "order",
        "orphans",
        "scale",
        "tabSize",
        "widows",
        "zIndex",
        "zoom",
        "fillOpacity",
        "floodOpacity",
        "stopOpacity",
        "strokeDasharray",
        "strokeDashoffset",
        "strokeMiterlimit",
        "strokeOpacity",
        "strokeWidth",
        "MozAnimationIterationCount",
        "MozBoxFlex",
        "MozBoxFlexGroup",
        "MozLineClamp",
        "msAnimationIterationCount",
        "msFlex",
        "msZoom",
        "msFlexGrow",
        "msFlexNegative",
        "msFlexOrder",
        "msFlexPositive",
        "msFlexShrink",
        "msGridColumn",
        "msGridColumnSpan",
        "msGridRow",
        "msGridRowSpan",
        "WebkitAnimationIterationCount",
        "WebkitBoxFlex",
        "WebKitBoxFlexGroup",
        "WebkitBoxOrdinalGroup",
        "WebkitColumnCount",
        "WebkitColumns",
        "WebkitFlex",
        "WebkitFlexGrow",
        "WebkitFlexPositive",
        "WebkitFlexShrink",
        "WebkitLineClamp",
    ]
}

/// Whether a numeric value of the property `name` is written without a unit.
pub fn is_unitless_number(name: &str) -> (r: bool)
    ensures
        r == unitless_numbers().contains(name@),
{
    let list = unitless_number_list();
    let mut i: usize = 0;
    while i < list.len()
        invariant
            i <= list.len(),
            list@.len() == unitless_numbers().len(),
            forall|j: int| 0 <= j < list@.len() ==> (#[trigger] list@[j])@ == unitless_numbers()[j],
            forall|j: int| 0 <= j < i ==> unitless_numbers()[j] != name@,
        decreases list.len() - i,
    {
        if str_eq(list[i], name) {
            assert(unitless_numbers()[i as int] == name@);
            return true;
        }
        i += 1;
    }
    false
}

/// What a name cache is, seen from outside: the names it has processed and
/// how many times a name had to be computed.
pub struct StyleNameCacheView {
    pub names: Set<Seq<char>>,
    pub computed: nat,
}

/// The cache after it was asked for `name`: the name is known from then on,
/// and the count of computations grows only if it was not known before. The
/// count stops at the largest `u64`.
pub open spec fn cache_after(cache: StyleNameCacheView, name: Seq<char>) -> StyleNameCacheView {
    StyleNameCacheView {
        names: cache.names.insert(name),
        computed: if cache.names.contains(name) || cache.computed >= u64::MAX {
            cache.computed
        } else {
            cache.computed + 1
        },
    }
}

/// Memo of processed property names. The processed form depends on the name
/// alone, so an entry is never wrong and never needs to be dropped.
pub struct StyleNameCache {
    names: StringMap<String>,
    computed: u64,
}

impl StyleNameCache {
    #[verifier::type_invariant]
    spec fn holds_processed_names(&self) -> bool {
        forall|k: Seq<char>| #[trigger]
            self.names@.contains_key(k) ==> self.names@[k]@ == spec_process_style_name(k)
    }

    /// The names processed so far and the number of computations made.
    pub closed spec fn view(&self) -> StyleNameCacheView {
        StyleNameCacheView { names: self.names@.dom(), computed: self.computed as nat }
    }

    /// A cache that knows no name yet.
    pub fn new() -> (r: Self)
        ensures
            r@.names == Set::<Seq<char>>::empty(),
            r@.computed == 0,
    {
        let r = StyleNameCache { names: StringMap::new(), computed: 0 };
        assert(r@.names =~= Set::<Seq<char>>::empty());
        r
    }

    /// How many names were computed rather than found in the cache.
    pub fn computed(&self) -> (r: u64)
        ensures
            r == self@.computed,
    {
        self.computed
    }
}

/// The written form of the property name `name`, taken from the cache when
/// the name was processed before and computed and remembered otherwise.
pub fn process_style_name(cache: &mut StyleNameCache, name: String) -> (r: String)
    ensures
        r@ == spec_process_style_name(name@),
        final(cache)@ == cache_after(old(cache)@, name@),
{
    proof {
        use_type_invariant(&*cache);
    }
    if let Some(known) = cache.names.get(name.as_str()) {
        let r = known.clone();
        assert(cache@.names =~= cache@.names.insert(name@));
        return r;
    }
    let chars = chars_of(name.as_str());
    let value = if starts_with_two_hyphens(&chars) {
        escape_html_chars(&chars)
    } else {
        let hyphenated = hyphenate_chars(&chars);
        escape_html_chars(&hyphenated)
    };
    let r = value.clone();
    let mut names: StringMap<String> = StringMap::new();
    core::mem::swap(&mut cache.names, &mut names);
    names.insert(name, value);
    core::mem::swap(&mut cache.names, &mut names);
    if cache.computed < u64::MAX {
        cache.computed = cache.computed + 1;
    }
    assert(cache@.names =~= old(cache)@.names.insert(name@));
    r
}

/// Asking for the same name twice gives the same text both times, and the
/// second request computes nothing.
pub proof fn lemma_cache_round_trip(cache: StyleNameCacheView, name: Seq<char>)
    ensures
        cache_after(cache_after(cache, name), name).computed == cache_after(cache, name).computed,
        cache_after(cache_after(cache, name), name).names == cache_after(cache, name).names,
{
    assert(cache.names.insert(name).insert(name) =~= cache.names.insert(name));
}

} // verus!
