//! The address switch: the grammar that binds the externally visible location
//! to the viewer's pages, with a base-path prefix so the viewer can be hosted
//! under a sub-path rather than at the root.

use vstd::prelude::*;

verus! {

/// A page of the viewer, as the address names it. A numeric tail names a
/// slide by position, any other tail names it by slug, and an address that
/// matches no page carries itself into the not-found page.
#[derive(Debug, PartialEq)]
pub enum AppRoute {
    SlidesNumber(usize),
    SlidesName(String),
    PageNotFound(Option<String>),
    Home,
}

/// Mathematical counterpart of `AppRoute`.
pub enum AppRouteSpec {
    SlidesNumber(int),
    SlidesName(Seq<char>),
    PageNotFound(Option<Seq<char>>),
    Home,
}

impl DeepView for AppRoute {
    type V = AppRouteSpec;

    open spec fn deep_view(&self) -> AppRouteSpec {
        match self {
            AppRoute::SlidesNumber(n) => AppRouteSpec::SlidesNumber(*n as int),
            AppRoute::SlidesName(name) => AppRouteSpec::SlidesName(name.deep_view()),
            AppRoute::PageNotFound(route) => AppRouteSpec::PageNotFound(route.deep_view()),
            AppRoute::Home => AppRouteSpec::Home,
        }
    }
}

/// Wraps a route together with base-path handling.
#[derive(Debug, PartialEq)]
pub struct UrlSwitch(pub AppRoute);

impl AppRoute {
    /// Wraps the route for base-path handling.
    pub fn into_switch(self) -> (sw: UrlSwitch)
        ensures
            sw.0 == self,
    {
        UrlSwitch(self)
    }
}

impl UrlSwitch {
    /// The wrapped route.
    pub fn route(self) -> (route: AppRoute)
        ensures
            route == self.0,
    {
        self.0
    }
}

/// Whether a character is a decimal digit.
pub open spec fn is_dec_digit(c: char) -> bool {
    48 <= c as u32 <= 57
}

/// The value of a decimal digit.
pub open spec fn digit_value(c: char) -> int {
    c as u32 - 48
}

/// Whether every character of the sequence is a decimal digit.
pub open spec fn all_digits(s: Seq<char>) -> bool {
    forall|i: int| 0 <= i < s.len() ==> is_dec_digit(#[trigger] s[i])
}

/// The character of one decimal digit.
pub open spec fn digit_char(d: int) -> char {
    if d == 0 {
        '0'
    } else if d == 1 {
        '1'
    } else if d == 2 {
        '2'
    } else if d == 3 {
        '3'
    } else if d == 4 {
        '4'
    } else if d == 5 {
        '5'
    } else if d == 6 {
        '6'
    } else if d == 7 {
        '7'
    } else if d == 8 {
        '8'
    } else {
        '9'
    }
}

/// The decimal form of a non-negative number, most significant digit first.
pub open spec fn dec_str(n: int) -> Seq<char>
    decreases n,
{
    if n < 10 {
        seq![digit_char(n)]
    } else {
        dec_str(n / 10).push(digit_char(n % 10))
    }
}

/// The number a sequence of decimal digits denotes.
pub open spec fn dec_value(s: Seq<char>) -> int
    decreases s.len(),
{
    if s.len() == 0 {
        0
    } else {
        dec_value(s.drop_last()) * 10 + digit_value(s.last())
    }
}

/// The decimal form of a number consists of digits and denotes it.
pub proof fn lemma_dec_str(n: int)
    requires
        n >= 0,
    ensures
        dec_str(n).len() >= 1,
        all_digits(dec_str(n)),
        dec_value(dec_str(n)) == n,
    decreases n,
{
    reveal_with_fuel(dec_str, 2);
    reveal_with_fuel(dec_value, 2);
    if n < 10 {
        assert(dec_str(n).drop_last() =~= Seq::<char>::empty());
    } else {
        lemma_dec_str(n / 10);
        let s = dec_str(n);
        assert(s.drop_last() =~= dec_str(n / 10));
        assert(dec_value(s) == dec_value(dec_str(n / 10)) * 10 + digit_value(digit_char(n % 10)));
        assert(n / 10 * 10 + n % 10 == n);
        assert forall|i: int| 0 <= i < s.len() implies is_dec_digit(#[trigger] s[i]) by {
            if i < s.len() - 1 {
                assert(s[i] == dec_str(n / 10)[i]);
            } else {
                assert(s[i] == digit_char(n % 10));
            }
        }
    }
}

/// A sequence of digits denotes a non-negative number.
pub proof fn lemma_dec_value_nonneg(s: Seq<char>)
    requires
        all_digits(s),
    ensures
        dec_value(s) >= 0,
    decreases s.len(),
{
    if s.len() > 0 {
        assert(all_digits(s.drop_last())) by {
            assert(forall|i: int|
                0 <= i < s.len() - 1 ==> #[trigger] s.drop_last()[i] == s[i]);
        }
        lemma_dec_value_nonneg(s.drop_last());
    }
}

/// Within a sequence of digits, a prefix never denotes more than the whole.
pub proof fn lemma_dec_value_prefix(s: Seq<char>, i: int)
    requires
        all_digits(s),
        0 <= i <= s.len(),
    ensures
        dec_value(s.take(i)) <= dec_value(s),
    decreases s.len() - i,
{
    if i == s.len() {
        assert(s.take(i) =~= s);
    } else {
        lemma_dec_value_prefix(s, i + 1);
        assert(s.take(i + 1).drop_last() =~= s.take(i));
        assert(s.take(i + 1).last() == s[i]);
        assert(all_digits(s.take(i))) by {
            assert(forall|j: int| 0 <= j < i ==> #[trigger] s.take(i)[j] == s[j]);
        }
        lemma_dec_value_nonneg(s.take(i));
        assert(dec_value(s.take(i + 1)) == dec_value(s.take(i)) * 10 + digit_value(s[i]));
        assert(dec_value(s.take(i)) <= dec_value(s.take(i)) * 10);
    }
}

/// The character of one decimal digit, as a string.
fn digit_str(d: usize) -> (s: &'static str)
    requires
        d < 10,
    ensures
        s.view() == seq![digit_char(d as int)],
{
    proof {
        reveal_strlit("0");
        reveal_strlit("1");
        reveal_strlit("2");
        reveal_strlit("3");
        reveal_strlit("4");
        reveal_strlit("5");
        reveal_strlit("6");
        reveal_strlit("7");
        reveal_strlit("8");
        reveal_strlit("9");
    }
    let s: &'static str = match d {
        0 => "0",
        1 => "1",
        2 => "2",
        3 => "3",
        4 => "4",
        5 => "5",
        6 => "6",
        7 => "7",
        8 => "8",
        _ => "9",
    };
    proof {
        assert(s.view() =~= seq![digit_char(d as int)]);
    }
    s
}

/// The decimal form of a position, as `dec_str` describes.
pub fn format_index(n: usize) -> (s: String)
    ensures
        s.view() == dec_str(n as int),
    decreases n,
{
    proof {
        reveal_with_fuel(dec_str, 2);
    }
    if n < 10 {
        let s = String::from_str(digit_str(n));
        proof {
            assert(s.view() =~= dec_str(n as int));
        }
        s
    } else {
        let mut s = format_index(n / 10);
        s.append(digit_str(n % 10));
        proof {
            assert(s.view() =~= dec_str(n as int / 10).push(digit_char(n as int % 10)));
        }
        s
    }
}

/// Reads a position from its decimal form: the digits' value, when the text
/// is nothing but digits and the value fits.
pub fn parse_index(s: &str) -> (r: Option<usize>)
    ensures
        (match r {
            Some(n) => s.view().len() > 0 && all_digits(s.view()) && n as int == dec_value(
                s.view(),
            ),
            None => s.view().len() == 0 || !all_digits(s.view()) || dec_value(s.view())
                > usize::MAX as int,
        }),
{
    let len = s.unicode_len();
    if len == 0 {
        return None;
    }
    let mut value: usize = 0;
    let ghost text = s.view();
    for i in 0..len
        invariant
            len == text.len(),
            text == s.view(),
            all_digits(text.take(i as int)),
            value as int == dec_value(text.take(i as int)),
    {
        let c = s.get_char(i);
        let code = c as u32;
        if code < 48 || code > 57 {
            proof {
                assert(!is_dec_digit(text[i as int]));
            }
            return None;
        }
        let d = (code - 48) as usize;
        let next = match value.checked_mul(10) {
            Some(v) => v.checked_add(d),
            None => None,
        };
        proof {
            assert(text.take(i + 1).drop_last() =~= text.take(i as int));
            assert(text.take(i + 1).last() == text[i as int]);
            assert(all_digits(text.take(i + 1))) by {
                assert(forall|j: int|
                    0 <= j < i + 1 ==> #[trigger] text.take(i + 1)[j] == text[j]);
                assert(forall|j: int|
                    0 <= j < i ==> #[trigger] text.take(i as int)[j] == text[j]);
            }
            assert(dec_value(text.take(i + 1)) == (value as int) * 10 + d as int);
        }
        match next {
            Some(v) => {
                value = v;
            },
            None => {
                proof {
                    if all_digits(text) {
                        lemma_dec_value_prefix(text, i + 1);
                    }
                }
                return None;
            },
        }
    }
    proof {
        assert(text.take(len as int) =~= text);
    }
    Some(value)
}

/// Whether two pieces of text are the same characters.
fn str_eq(a: &str, b: &str) -> (r: bool)
    ensures
        r == (a.view() == b.view()),
{
    let n = a.unicode_len();
    let m = b.unicode_len();
    if n != m {
        proof {
            assert(a.view() != b.view()) by {
                if a.view() == b.view() {
                    assert(a.view().len() == b.view().len());
                }
            }
        }
        return false;
    }
    for i in 0..n
        invariant
            n == a.view().len(),
            n == b.view().len(),
            forall|j: int| 0 <= j < i ==> a.view()[j] == #[trigger] b.view()[j],
    {
        if a.get_char(i) != b.get_char(i) {
            proof {
                assert(a.view() != b.view()) by {
                    if a.view() == b.view() {
                        assert(a.view()[i as int] == b.view()[i as int]);
                    }
                }
            }
            return false;
        }
    }
    proof {
        assert(a.view() =~= b.view());
    }
    true
}

/// Takes a prefix off a piece of text: the rest when the prefix is there,
/// nothing when it is not.
fn strip_prefix_str(s: &str, prefix: &str) -> (r: Option<String>)
    ensures
        (match r {
            Some(rest) => s.view().len() >= prefix.view().len() && s.view().subrange(
                0,
                prefix.view().len() as int,
            ) == prefix.view() && rest.view() == s.view().subrange(
                prefix.view().len() as int,
                s.view().len() as int,
            ),
            None => !(s.view().len() >= prefix.view().len() && s.view().subrange(
                0,
                prefix.view().len() as int,
            ) == prefix.view()),
        }),
{
    let n = prefix.unicode_len();
    let m = s.unicode_len();
    if m < n {
        return None;
    }
    for i in 0..n
        invariant
            n == prefix.view().len(),
            m == s.view().len(),
            n <= m,
            forall|j: int| 0 <= j < i ==> s.view()[j] == #[trigger] prefix.view()[j],
    {
        if s.get_char(i) != prefix.get_char(i) {
            proof {
                let head = s.view().subrange(0, n as int);
                assert(head != prefix.view()) by {
                    if head == prefix.view() {
                        assert(head[i as int] == prefix.view()[i as int]);
                        assert(head[i as int] == s.view()[i as int]);
                    }
                }
            }
            return None;
        }
    }
    let rest = s.substring_char(n, m).to_owned();
    proof {
        assert(s.view().subrange(0, n as int) =~= prefix.view());
    }
    Some(rest)
}

/// The page an address names: the root is home, a numeric tail under the
/// slides path names a slide by position when its value fits, any other
/// non-empty tail names it by slug, the not-found path is itself, and any
/// other address carries itself into the not-found page.
pub open spec fn route_of(s: Seq<char>) -> AppRouteSpec {
    if s == "/"@ {
        AppRouteSpec::Home
    } else if s.len() > "/slides/"@.len() && s.subrange(0, "/slides/"@.len() as int)
        == "/slides/"@ {
        let rest = s.subrange("/slides/"@.len() as int, s.len() as int);
        if all_digits(rest) && dec_value(rest) <= usize::MAX as int {
            AppRouteSpec::SlidesNumber(dec_value(rest))
        } else {
            AppRouteSpec::SlidesName(rest)
        }
    } else if s == "/page-not-found"@ {
        AppRouteSpec::PageNotFound(None)
    } else {
        AppRouteSpec::PageNotFound(Some(s))
    }
}

/// The address a route builds.
pub open spec fn route_str(r: AppRouteSpec) -> Seq<char> {
    match r {
        AppRouteSpec::SlidesNumber(n) => "/slides/"@ + dec_str(n),
        AppRouteSpec::SlidesName(name) => "/slides/"@ + name,
        AppRouteSpec::PageNotFound(_) => "/page-not-found"@,
        AppRouteSpec::Home => "/"@,
    }
}

/// The address round trip: parsing a built address names the same route, for
/// routes in canonical form — a slide position, a non-empty name that is not
/// all digits, home, or the not-found page without a carried address.
pub proof fn lemma_route_round_trip(r: AppRouteSpec)
    requires
        (r matches AppRouteSpec::SlidesNumber(n) ==> 0 <= n <= usize::MAX as int),
        (r matches AppRouteSpec::SlidesName(name) ==> name.len() > 0 && !all_digits(name)),
        (r matches AppRouteSpec::PageNotFound(p) ==> p is None),
    ensures
        route_of(route_str(r)) == r,
{
    reveal_strlit("/");
    reveal_strlit("/slides/");
    reveal_strlit("/page-not-found");
    match r {
        AppRouteSpec::Home => {},
        AppRouteSpec::PageNotFound(_) => {
            let s = "/page-not-found"@;
            assert(s != "/"@) by {
                if s == "/"@ {
                    assert(s.len() == 1);
                }
            }
            assert(s.subrange(0, 8) != "/slides/"@) by {
                if s.subrange(0, 8) == "/slides/"@ {
                    assert(s.subrange(0, 8)[1] == s[1]);
                }
            }
        },
        AppRouteSpec::SlidesNumber(n) => {
            lemma_dec_str(n);
            let s = "/slides/"@ + dec_str(n);
            assert(s.subrange(0, 8) =~= "/slides/"@);
            assert(s.subrange(8, s.len() as int) =~= dec_str(n));
            assert(s != "/"@) by {
                if s == "/"@ {
                    assert(s.len() == 1);
                }
            }
        },
        AppRouteSpec::SlidesName(name) => {
            let s = "/slides/"@ + name;
            assert(s.subrange(0, 8) =~= "/slides/"@);
            assert(s.subrange(8, s.len() as int) =~= name);
            assert(s != "/"@) by {
                if s == "/"@ {
                    assert(s.len() == 1);
                }
            }
        },
    }
}

/// Reads a route from an address, as `route_of` describes.
pub fn parse_route(s: &str) -> (route: AppRoute)
    ensures
        route.deep_view() == route_of(s.view()),
{
    proof {
        reveal_strlit("/");
        reveal_strlit("/slides/");
        reveal_strlit("/page-not-found");
    }
    if str_eq(s, "/") {
        return AppRoute::Home;
    }
    match strip_prefix_str(s, "/slides/") {
        Some(rest) => {
            if rest.as_str().is_empty() {
                AppRoute::PageNotFound(Some(s.to_owned()))
            } else {
                match parse_index(rest.as_str()) {
                    Some(n) => AppRoute::SlidesNumber(n),
                    None => AppRoute::SlidesName(rest),
                }
            }
        },
        None => {
            if str_eq(s, "/page-not-found") {
                AppRoute::PageNotFound(None)
            } else {
                AppRoute::PageNotFound(Some(s.to_owned()))
            }
        },
    }
}

/// Builds a route's address, as `route_str` describes.
pub fn build_route(route: &AppRoute) -> (s: String)
    ensures
        s.view() == route_str(route.deep_view()),
{
    match route {
        AppRoute::SlidesNumber(n) => {
            let mut s = String::from_str("/slides/");
            let digits = format_index(*n);
            s.append(digits.as_str());
            s
        },
        AppRoute::SlidesName(name) => {
            let mut s = String::from_str("/slides/");
            s.append(name.as_str());
            s
        },
        AppRoute::PageNotFound(_) => String::from_str("/page-not-found"),
        AppRoute::Home => String::from_str("/"),
    }
}

/// Builds a route's address under a base path.
pub fn build_route_with_base(base: &str, route: &AppRoute) -> (s: String)
    ensures
        s.view() == base.view() + route_str(route.deep_view()),
{
    let mut s = base.to_owned();
    let tail = build_route(route);
    s.append(tail.as_str());
    s
}

/// Takes the trailing slash off a base path, which the routes already
/// account for.
pub fn normalize_base_path(path: &str) -> (r: String)
    ensures
        path.view().len() > 0 && path.view().last() == '/' ==> r.view() == path.view().take(
            path.view().len() - 1,
        ),
        !(path.view().len() > 0 && path.view().last() == '/') ==> r.view() == path.view(),
{
    let len = path.unicode_len();
    if len > 0 && path.get_char(len - 1) == '/' {
        let r = path.substring_char(0, len - 1).to_owned();
        proof {
            assert(r.view() =~= path.view().take(path.view().len() - 1));
        }
        r
    } else {
        path.to_owned()
    }
}

/// Reads a route from an address under a base path: the base is taken off
/// first, and an address outside the base names no route.
pub fn from_route_part(part: &str, base: &str) -> (r: Option<UrlSwitch>)
    ensures
        (match r {
            Some(sw) => part.view().len() >= base.view().len() && part.view().subrange(
                0,
                base.view().len() as int,
            ) == base.view() && sw.0.deep_view() == route_of(
                part.view().subrange(base.view().len() as int, part.view().len() as int),
            ),
            None => !(part.view().len() >= base.view().len() && part.view().subrange(
                0,
                base.view().len() as int,
            ) == base.view()),
        }),
{
    match strip_prefix_str(part, base) {
        Some(rest) => Some(UrlSwitch(parse_route(rest.as_str()))),
        None => None,
    }
}

} // verus!
