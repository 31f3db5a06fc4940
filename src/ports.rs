use vstd::prelude::*;

verus! {

#[verifier::external_type_specification]
#[verifier::external_body]
pub struct ExRegex(regex::Regex);

/// Whether the regular expression `pattern`, in the syntax of the `regex`
/// crate, matches somewhere in `haystack`.
pub uninterp spec fn regex_finds(pattern: Seq<char>, haystack: Seq<char>) -> bool;

/// Whether the `regex` crate accepts `pattern`: valid syntax, within the
/// default size limit.
pub uninterp spec fn regex_compiles(pattern: Seq<char>) -> bool;

/// A compiled regular expression together with its source text.
pub struct Pattern {
    source: String,
    re: regex::Regex,
}

impl Pattern {
    pub closed spec fn source(&self) -> Seq<char> {
        self.source@
    }
}

/// Relies on `regex::Regex::new`: compiles `source`, failing on invalid
/// syntax or an oversized program, which depends on the text alone. The
/// pattern keeps its source text.
#[verifier::external_body]
fn compile(source: &str) -> (r: Option<Pattern>)
    ensures
        r is Some <==> regex_compiles(source@),
        r matches Some(p) ==> p.source() == source@,
{
    match regex::Regex::new(source) {
        Ok(re) => Some(Pattern { source: source.to_string(), re }),
        Err(_) => None,
    }
}

/// Relies on `regex::Regex::is_match`: whether the pattern matches
/// anywhere in `haystack`, which depends on the pattern and the haystack
/// alone.
#[verifier::external_body]
fn is_match(p: &Pattern, haystack: &str) -> (r: bool)
    ensures
        r == regex_finds(p.source(), haystack@),
{
    p.re.is_match(haystack)
}

/// The pattern of a wire address such as `20:0`.
pub open spec fn address_pattern() -> Seq<char> {
    seq!['\\', 'd', '+', ':', '\\', 'd', '+']
}

/// The pattern of a port index such as `2`.
pub open spec fn index_pattern() -> Seq<char> {
    seq!['\\', 'd', '+']
}

fn address_source() -> (r: String)
    ensures
        r@ == address_pattern(),
{
    let mut s = String::new();
    s.append("\\d+:\\d+");
    proof {
        reveal_strlit("\\d+:\\d+");
    }
    assert(s@ =~= address_pattern());
    s
}

fn index_source() -> (r: String)
    ensures
        r@ == index_pattern(),
{
    let mut s = String::new();
    s.append("\\d+");
    proof {
        reveal_strlit("\\d+");
    }
    assert(s@ =~= index_pattern());
    s
}

/// Why a MIDI port could not be selected, opened or written.
#[derive(Clone, Debug)]
pub enum PortError {
    /// No port matches the selector.
    NotFound,
    /// The text is neither a port index nor a wire address.
    BadAddress,
    OpenFailed(String),
    SendFailed(String),
}

/// How a port is named on the command line.
#[derive(Clone, Debug)]
pub enum PortSelector {
    /// Position in the driver's port list.
    Index(usize),
    /// Wire address `N:M`, matched against the end of the port's name.
    Address(String),
    /// The port's exact name.
    Name(String),
}

pub open spec fn is_digit(c: char) -> bool {
    '0' <= c <= '9'
}

/// Value of a string of decimal digits.
pub open spec fn digits_value(s: Seq<char>) -> int
    decreases s.len(),
{
    if s.len() == 0 {
        0
    } else {
        digits_value(s.drop_last()) * 10 + (s.last() as int - '0' as int)
    }
}

pub open spec fn all_digits(s: Seq<char>) -> bool {
    forall|i: int| 0 <= i < s.len() ==> is_digit(#[trigger] s[i])
}

/// The digits of an index: the text without one leading `+`.
pub open spec fn index_digits(s: Seq<char>) -> Seq<char> {
    if s.len() > 0 && s[0] == '+' {
        s.drop_first()
    } else {
        s
    }
}

/// A port index as `usize::from_str` reads it: an optional `+`, then one
/// or more decimal digits whose value fits in a `usize`.
pub open spec fn index_value(s: Seq<char>) -> Option<usize> {
    let d = index_digits(s);
    if d.len() > 0 && all_digits(d) && digits_value(d) <= usize::MAX {
        Some(digits_value(d) as usize)
    } else {
        None
    }
}

proof fn lemma_digits_value_grows(s: Seq<char>, k: int)
    requires
        0 <= k <= s.len(),
        all_digits(s),
    ensures
        digits_value(s.subrange(0, k)) <= digits_value(s),
        0 <= digits_value(s.subrange(0, k)),
    decreases s.len(),
{
    assert(s.subrange(0, s.len() as int) =~= s);
    if k < s.len() {
        let t = s.drop_last();
        assert(t.subrange(0, k) =~= s.subrange(0, k));
        assert(all_digits(t));
        lemma_digits_value_grows(t, k);
        lemma_digits_value_grows(t, t.len() as int);
        assert(t.subrange(0, t.len() as int) =~= t);
    } else if s.len() > 0 {
        let t = s.drop_last();
        assert(all_digits(t));
        lemma_digits_value_grows(t, t.len() as int);
        assert(t.subrange(0, t.len() as int) =~= t);
    }
}

/// Reads a port index the way `usize::from_str` does.
pub fn parse_index(text: &str) -> (r: Option<usize>)
    ensures
        r == index_value(text@),
{
    let n = text.unicode_len();
    let mut start: usize = 0;
    if n > 0 && text.get_char(0) == '+' {
        start = 1;
    }
    let ghost d = index_digits(text@);
    assert(d =~= text@.subrange(start as int, n as int));
    if start == n {
        return None;
    }
    let mut value: usize = 0;
    let mut i: usize = start;
    while i < n
        invariant
            start <= i <= n,
            n == text@.len(),
            start < n,
            d == text@.subrange(start as int, n as int),
            d == index_digits(text@),
            all_digits(d.subrange(0, i - start)),
            value == digits_value(d.subrange(0, i - start)),
        decreases n - i,
    {
        let c = text.get_char(i);
        if c < '0' || c > '9' {
            assert(d[i - start] == c);
            assert(!is_digit(d[i - start]));
            return None;
        }
        let ghost prev = d.subrange(0, i - start);
        let ghost next = d.subrange(0, i - start + 1);
        assert(next.drop_last() =~= prev);
        assert(next.last() == c);
        assert(all_digits(next));
        let digit = (c as u32 - '0' as u32) as usize;
        match value.checked_mul(10) {
            None => {
                proof {
                    assert(digits_value(next) == value * 10 + (c as int - '0' as int));
                    if all_digits(d) {
                        lemma_digits_value_grows(d, next.len() as int);
                        assert(d.subrange(0, next.len() as int) == next);
                    }
                }
                return None;
            },
            Some(v10) => match v10.checked_add(digit) {
                None => {
                    proof {
                        assert(digits_value(next) == value * 10 + (c as int - '0' as int));
                        if all_digits(d) {
                            lemma_digits_value_grows(d, next.len() as int);
                            assert(d.subrange(0, next.len() as int) == next);
                        }
                    }
                    return None;
                },
                Some(v) => {
                    assert(digits_value(next) == value * 10 + (c as int - '0' as int));
                    value = v;
                },
            },
        }
        i = i + 1;
    }
    assert(d.subrange(0, n - start) =~= d);
    Some(value)
}

pub open spec fn ends_with_spec(s: Seq<char>, suffix: Seq<char>) -> bool {
    suffix.len() <= s.len() && s.subrange(s.len() - suffix.len(), s.len() as int) == suffix
}

pub open spec fn starts_with_spec(s: Seq<char>, prefix: Seq<char>) -> bool {
    prefix.len() <= s.len() && s.subrange(0, prefix.len() as int) == prefix
}

pub fn ends_with(s: &str, suffix: &str) -> (r: bool)
    ensures
        r == ends_with_spec(s@, suffix@),
{
    let n = s.unicode_len();
    let m = suffix.unicode_len();
    if m > n {
        return false;
    }
    let mut i: usize = 0;
    while i < m
        invariant
            i <= m <= n,
            n == s@.len(),
            m == suffix@.len(),
            forall|j: int| 0 <= j < i ==> s@[n - m + j] == suffix@[j],
        decreases m - i,
    {
        if s.get_char(n - m + i) != suffix.get_char(i) {
            assert(s@.subrange(n - m, n as int)[i as int] != suffix@[i as int]);
            return false;
        }
        i = i + 1;
    }
    assert(s@.subrange(n - m, n as int) =~= suffix@);
    true
}

pub fn starts_with(s: &str, prefix: &str) -> (r: bool)
    ensures
        r == starts_with_spec(s@, prefix@),
{
    let n = s.unicode_len();
    let m = prefix.unicode_len();
    if m > n {
        return false;
    }
    let mut i: usize = 0;
    while i < m
        invariant
            i <= m <= n,
            n == s@.len(),
            m == prefix@.len(),
            forall|j: int| 0 <= j < i ==> s@[j] == prefix@[j],
        decreases m - i,
    {
        if s.get_char(i) != prefix.get_char(i) {
            assert(s@.subrange(0, m as int)[i as int] != prefix@[i as int]);
            return false;
        }
        i = i + 1;
    }
    assert(s@.subrange(0, m as int) =~= prefix@);
    true
}

pub open spec fn selector_spec(text: Seq<char>) -> Result<PortSelectorModel, PortErrorKind> {
    if regex_finds(address_pattern(), text) {
        Ok(PortSelectorModel::Address(text))
    } else if regex_finds(index_pattern(), text) {
        match index_value(text) {
            Some(i) => Ok(PortSelectorModel::Index(i)),
            None => Err(PortErrorKind::BadAddress),
        }
    } else {
        Err(PortErrorKind::BadAddress)
    }
}

/// The kind of a port error, without its message.
#[derive(Clone, Copy, Debug, PartialEq, Eq, Structural)]
pub enum PortErrorKind {
    NotFound,
    BadAddress,
    OpenFailed,
    SendFailed,
}

pub enum PortSelectorModel {
    Index(usize),
    Address(Seq<char>),
    Name(Seq<char>),
}

impl View for PortSelector {
    type V = PortSelectorModel;

    open spec fn view(&self) -> PortSelectorModel {
        match self {
            PortSelector::Index(i) => PortSelectorModel::Index(*i),
            PortSelector::Address(a) => PortSelectorModel::Address(a@),
            PortSelector::Name(n) => PortSelectorModel::Name(n@),
        }
    }
}

impl PortError {
    pub open spec fn kind(&self) -> PortErrorKind {
        match self {
            PortError::NotFound => PortErrorKind::NotFound,
            PortError::BadAddress => PortErrorKind::BadAddress,
            PortError::OpenFailed(_) => PortErrorKind::OpenFailed,
            PortError::SendFailed(_) => PortErrorKind::SendFailed,
        }
    }
}

/// Reads a port address given as text: a wire address when it holds
/// `digits:digits`, else a port index when it holds digits, else an error.
/// Both tests are regular-expression searches, as the `regex` crate runs
/// them; the `regex` crate accepts both patterns, and only if it did not
/// would every text be refused.
pub fn parse_selector(text: &str) -> (r: Result<PortSelector, PortError>)
    ensures
        match r {
            Ok(sel) => selector_spec(text@) == Ok::<PortSelectorModel, PortErrorKind>(sel@),
            Err(e) => e.kind() == PortErrorKind::BadAddress,
        },
        selector_spec(text@) is Err ==> r is Err,
        regex_compiles(address_pattern()) && regex_compiles(index_pattern()) ==> (r is Ok
            <==> selector_spec(text@) is Ok),
{
    let address = match compile(address_source().as_str()) {
        Some(p) => p,
        None => {
            return Err(PortError::BadAddress);
        },
    };
    let index = match compile(index_source().as_str()) {
        Some(p) => p,
        None => {
            return Err(PortError::BadAddress);
        },
    };
    if is_match(&address, text) {
        Ok(PortSelector::Address(String::from_str(text)))
    } else if is_match(&index, text) {
        match parse_index(text) {
            Some(i) => Ok(PortSelector::Index(i)),
            None => Err(PortError::BadAddress),
        }
    } else {
        Err(PortError::BadAddress)
    }
}

/// Position of the port that `sel` picks in `names`: the index itself when
/// it is in range, else the last name that ends with the address or
/// equals the name.
pub open spec fn select_spec(names: Seq<String>, sel: PortSelectorModel) -> Option<int> {
    match sel {
        PortSelectorModel::Index(i) => if i < names.len() {
            Some(i as int)
        } else {
            None
        },
        PortSelectorModel::Address(a) => last_with_suffix(names, a),
        PortSelectorModel::Name(x) => last_named(names, x),
    }
}

/// Last position whose name ends with `a`.
pub open spec fn last_with_suffix(names: Seq<String>, a: Seq<char>) -> Option<int> {
    if exists|i: int| 0 <= i < names.len() && ends_with_spec(#[trigger] names[i]@, a) {
        Some(
            choose|i: int|
                0 <= i < names.len() && ends_with_spec(#[trigger] names[i]@, a) && forall|j: int|
                    i < j < names.len() ==> !ends_with_spec(#[trigger] names[j]@, a),
        )
    } else {
        None
    }
}

/// Last position whose name is `x`.
pub open spec fn last_named(names: Seq<String>, x: Seq<char>) -> Option<int> {
    if exists|i: int| 0 <= i < names.len() && #[trigger] names[i]@ == x {
        Some(
            choose|i: int|
                0 <= i < names.len() && #[trigger] names[i]@ == x && forall|j: int|
                    i < j < names.len() ==> #[trigger] names[j]@ != x,
        )
    } else {
        None
    }
}

/// Picks a port out of the driver's list of port names. When several
/// names match an address or a name, the last of them is taken.
pub fn select_port(names: &Vec<String>, sel: &PortSelector) -> (r: Result<usize, PortError>)
    ensures
        match r {
            Ok(i) => select_spec(names@, sel@) == Some(i as int),
            Err(e) => select_spec(names@, sel@) is None && e.kind() == PortErrorKind::NotFound,
        },
        r matches Ok(i) ==> i < names@.len() && match sel@ {
            PortSelectorModel::Index(k) => i == k,
            PortSelectorModel::Address(a) => ends_with_spec(names@[i as int]@, a) && forall|j: int|
                i < j < names@.len() ==> !ends_with_spec(#[trigger] names@[j]@, a),
            PortSelectorModel::Name(x) => names@[i as int]@ == x && forall|j: int|
                i < j < names@.len() ==> #[trigger] names@[j]@ != x,
        },
        r is Err ==> match sel@ {
            PortSelectorModel::Index(k) => k >= names@.len(),
            PortSelectorModel::Address(a) => forall|j: int|
                0 <= j < names@.len() ==> !ends_with_spec(#[trigger] names@[j]@, a),
            PortSelectorModel::Name(x) => forall|j: int| 0 <= j < names@.len() ==> #[trigger] names@[j]@ != x,
        },
{
    match sel {
        PortSelector::Index(i) => {
            if *i < names.len() {
                Ok(*i)
            } else {
                Err(PortError::NotFound)
            }
        },
        PortSelector::Address(a) => {
            let n = names.len();
            let mut found: Option<usize> = None;
            let mut i: usize = 0;
            while i < n
                invariant
                    i <= n,
                    n == names@.len(),
                    sel@ == PortSelectorModel::Address(a@),
                    found matches Some(f) ==> f < i && ends_with_spec(names@[f as int]@, a@) && forall|j: int|
                        f < j < i ==> !(ends_with_spec(#[trigger] names@[j]@, a@)),
                    found is None ==> forall|j: int| 0 <= j < i ==> !(ends_with_spec(#[trigger] names@[j]@, a@)),
                decreases n - i,
            {
                if ends_with(names[i].as_str(), a.as_str()) {
                    found = Some(i);
                }
                i = i + 1;
            }
            match found {
                Some(f) => {
                    proof {
                        assert(0 <= f < names@.len() && ends_with_spec(names@[f as int]@, a@) && forall|j: int|
                            f < j < names@.len() ==> !(ends_with_spec(#[trigger] names@[j]@, a@)));
                        let k = choose|k: int|
                            0 <= k < names@.len() && ends_with_spec(#[trigger] names@[k]@, a@) && forall|j: int|
                                k < j < names@.len() ==> !(ends_with_spec(#[trigger] names@[j]@, a@));
                        assert(0 <= k < names@.len() && ends_with_spec(names@[k]@, a@));
                        if k < f {
                            assert(!(ends_with_spec(names@[f as int]@, a@)));
                        }
                        if k > f {
                            assert(!(ends_with_spec(names@[k]@, a@)));
                        }
                    }
                    Ok(f)
                },
                None => Err(PortError::NotFound),
            }
        },
        PortSelector::Name(x) => {
            let n = names.len();
            let mut found: Option<usize> = None;
            let mut i: usize = 0;
            while i < n
                invariant
                    i <= n,
                    n == names@.len(),
                    sel@ == PortSelectorModel::Name(x@),
                    found matches Some(f) ==> f < i && names@[f as int]@ == x@ && forall|j: int|
                        f < j < i ==> !(#[trigger] names@[j]@ == x@),
                    found is None ==> forall|j: int| 0 <= j < i ==> !(#[trigger] names@[j]@ == x@),
                decreases n - i,
            {
                if names[i] == *x {
                    found = Some(i);
                }
                i = i + 1;
            }
            match found {
                Some(f) => {
                    proof {
                        assert(0 <= f < names@.len() && names@[f as int]@ == x@ && forall|j: int|
                            f < j < names@.len() ==> !(#[trigger] names@[j]@ == x@));
                        let k = choose|k: int|
                            0 <= k < names@.len() && #[trigger] names@[k]@ == x@ && forall|j: int|
                                k < j < names@.len() ==> !(#[trigger] names@[j]@ == x@);
                        assert(0 <= k < names@.len() && names@[k]@ == x@);
                        if k < f {
                            assert(!(names@[f as int]@ == x@));
                        }
                        if k > f {
                            assert(!(names@[k]@ == x@));
                        }
                    }
                    Ok(f)
                },
                None => Err(PortError::NotFound),
            }
        },
    }
}

/// Positions, in order, of the ports whose names do not start with
/// `own_prefix`: the ports of this process are left out of discovery.
pub fn candidate_ports(names: &Vec<String>, own_prefix: &str) -> (r: Vec<usize>)
    ensures
        forall|k: int| 0 <= k < r@.len() ==> (#[trigger] r@[k]) < names@.len() && !starts_with_spec(
            names@[r@[k] as int]@,
            own_prefix@,
        ),
        forall|k: int, l: int| 0 <= k < l < r@.len() ==> r@[k] < r@[l],
        forall|i: int|
            0 <= i < names@.len() && !starts_with_spec(#[trigger] names@[i]@, own_prefix@)
                ==> r@.contains(i as usize),
{
    let mut r: Vec<usize> = Vec::new();
    let n = names.len();
    let mut i: usize = 0;
    while i < n
        invariant
            i <= n,
            n == names@.len(),
            forall|k: int| 0 <= k < r@.len() ==> (#[trigger] r@[k]) < i && !starts_with_spec(
                names@[r@[k] as int]@,
                own_prefix@,
            ),
            forall|k: int, l: int| 0 <= k < l < r@.len() ==> r@[k] < r@[l],
            forall|j: int|
                0 <= j < i && !starts_with_spec(#[trigger] names@[j]@, own_prefix@) ==> r@.contains(
                    j as usize,
                ),
        decreases n - i,
    {
        if !starts_with(names[i].as_str(), own_prefix) {
            let ghost before = r@;
            r.push(i);
            assert forall|j: int|
                0 <= j < i + 1 && !starts_with_spec(#[trigger] names@[j]@, own_prefix@) implies r@.contains(
                j as usize,
            ) by {
                if j < i {
                    let k = choose|k: int| 0 <= k < before.len() && before[k] == j as usize;
                    assert(r@[k] == j as usize);
                } else {
                    assert(r@[r@.len() - 1] == j as usize);
                }
            }
        }
        i = i + 1;
    }
    r
}

} // verus!
