//! Addresses (JIDs): a bare address `node@domain` (or a plain domain) and
//! a full address `node@domain/resource`, together with a verified parser.
//!
//! The grammar: the text up to the first `/` is the bare part, everything
//! after it is the resource (which must then be non-empty). Inside the
//! bare part, the text up to the first `@` is the node (non-empty when an
//! `@` is present), the rest is the domain (non-empty, without `@`).

use vstd::prelude::*;

verus! {

/// Abstract value of a bare address.
pub struct BareJidView {
    pub node: Option<Seq<char>>,
    pub domain: Seq<char>,
}

/// Abstract value of a full address.
pub struct FullJidView {
    pub bare: BareJidView,
    pub resource: Seq<char>,
}

/// Abstract value of an address.
pub enum JidView {
    Bare(BareJidView),
    Full(FullJidView),
}

impl JidView {
    /// The bare projection: a full address falls back to its bare part.
    pub open spec fn to_bare(self) -> BareJidView {
        match self {
            JidView::Bare(b) => b,
            JidView::Full(f) => f.bare,
        }
    }
}

/// A bare address: `node@domain`, or a plain `domain`.
#[derive(Debug)]
pub struct BareJid {
    pub node: Option<String>,
    pub domain: String,
}

/// A full address: a bare address qualified with a resource.
#[derive(Debug)]
pub struct FullJid {
    pub bare: BareJid,
    pub resource: String,
}

/// A bare or full address.
#[derive(Debug)]
pub enum Jid {
    Bare(BareJid),
    Full(FullJid),
}

impl View for BareJid {
    type V = BareJidView;

    open spec fn view(&self) -> BareJidView {
        BareJidView {
            node: match self.node {
                Some(n) => Some(n@),
                None => None,
            },
            domain: self.domain@,
        }
    }
}

impl View for FullJid {
    type V = FullJidView;

    open spec fn view(&self) -> FullJidView {
        FullJidView { bare: self.bare@, resource: self.resource@ }
    }
}

impl View for Jid {
    type V = JidView;

    open spec fn view(&self) -> JidView {
        match self {
            Jid::Bare(b) => JidView::Bare(b@),
            Jid::Full(f) => JidView::Full(f@),
        }
    }
}

impl Clone for BareJid {
    fn clone(&self) -> (res: Self)
        ensures
            res@ == self@,
    {
        BareJid {
            node: match &self.node {
                Some(n) => Some(n.clone()),
                None => None,
            },
            domain: self.domain.clone(),
        }
    }
}

impl Clone for FullJid {
    fn clone(&self) -> (res: Self)
        ensures
            res@ == self@,
    {
        FullJid { bare: self.bare.clone(), resource: self.resource.clone() }
    }
}

impl Clone for Jid {
    fn clone(&self) -> (res: Self)
        ensures
            res@ == self@,
    {
        match self {
            Jid::Bare(b) => Jid::Bare(b.clone()),
            Jid::Full(f) => Jid::Full(f.clone()),
        }
    }
}

impl BareJid {
    /// Qualify this bare address with a resource, yielding a full address.
    pub fn with_resource(self, resource: String) -> (r: FullJid)
        ensures
            r@ == (FullJidView { bare: self@, resource: resource@ }),
    {
        FullJid { bare: self, resource }
    }

    /// Whether two bare addresses denote the same identity.
    pub fn same_as(&self, other: &BareJid) -> (r: bool)
        ensures
            r == (self@ == other@),
    {
        let node_eq: bool = match (&self.node, &other.node) {
            (Some(a), Some(b)) => *a == *b,
            (None, None) => true,
            _ => false,
        };
        node_eq && self.domain == other.domain
    }
}

impl Jid {
    /// The bare projection of this address.
    pub fn to_bare(self) -> (r: BareJid)
        ensures
            r@ == self@.to_bare(),
    {
        match self {
            Jid::Bare(b) => b,
            Jid::Full(f) => f.bare,
        }
    }
}

/// The text rendering of a bare address.
pub open spec fn spec_bare_jid_string(b: BareJidView) -> Seq<char> {
    match b.node {
        Some(n) => n + "@"@ + b.domain,
        None => b.domain,
    }
}

/// The text rendering of an address.
pub open spec fn spec_jid_string(j: JidView) -> Seq<char> {
    match j {
        JidView::Bare(b) => spec_bare_jid_string(b),
        JidView::Full(f) => spec_bare_jid_string(f.bare) + "/"@ + f.resource,
    }
}

impl BareJid {
    /// Render this bare address as text.
    pub fn to_text(&self) -> (r: String)
        ensures
            r@ == spec_bare_jid_string(self@),
    {
        let mut s = String::new();
        match &self.node {
            Some(n) => {
                s.append(n.as_str());
                s.append("@");
                s.append(self.domain.as_str());
                proof {
                    assert(s@ =~= self@.node->0 + "@"@ + self@.domain);
                }
            },
            None => {
                s.append(self.domain.as_str());
                proof {
                    assert(s@ =~= self@.domain);
                }
            },
        }
        s
    }
}

impl Jid {
    /// Render this address as text.
    pub fn to_text(&self) -> (r: String)
        ensures
            r@ == spec_jid_string(self@),
    {
        match self {
            Jid::Bare(b) => b.to_text(),
            Jid::Full(f) => {
                let mut s = f.bare.to_text();
                s.append("/");
                s.append(f.resource.as_str());
                proof {
                    assert(s@ =~= spec_bare_jid_string(self@->Full_0.bare) + "/"@
                        + self@->Full_0.resource);
                }
                s
            },
        }
    }
}

/// Why a piece of text is not an address.
#[derive(Clone, Copy, Debug, PartialEq, Eq, Structural)]
pub enum JidError {
    /// An `@` with nothing before it.
    EmptyNode,
    /// No domain part (covers the empty input).
    EmptyDomain,
    /// A second `@` inside the domain part.
    InvalidDomain,
    /// A `/` with nothing after it.
    EmptyResource,
}

pub open spec fn has_char(s: Seq<char>, c: char) -> bool {
    exists|i: int| 0 <= i < s.len() && s[i] == c
}

pub open spec fn is_first_index_of(s: Seq<char>, c: char, i: int) -> bool {
    &&& 0 <= i < s.len()
    &&& s[i] == c
    &&& forall|j: int| 0 <= j < i ==> s[j] != c
}

pub open spec fn first_index_of(s: Seq<char>, c: char) -> int {
    choose|i: int| is_first_index_of(s, c, i)
}

pub proof fn lemma_first_index_exists(s: Seq<char>, c: char)
    requires
        has_char(s, c),
    ensures
        is_first_index_of(s, c, first_index_of(s, c)),
    decreases s.len(),
{
    if s.len() > 0 && s[0] == c {
        assert(is_first_index_of(s, c, 0));
    } else {
        let w = choose|i: int| 0 <= i < s.len() && s[i] == c;
        assert(s.drop_first()[w - 1] == c);
        lemma_first_index_exists(s.drop_first(), c);
        let i = first_index_of(s.drop_first(), c);
        assert forall|j: int| 0 <= j < i + 1 implies s[j] != c by {
            if j > 0 {
                assert(s.drop_first()[j - 1] != c);
            }
        }
        assert(s[i + 1] == s.drop_first()[i]);
        assert(is_first_index_of(s, c, i + 1));
    }
}

pub proof fn lemma_first_index_unique(s: Seq<char>, c: char, i: int, j: int)
    requires
        is_first_index_of(s, c, i),
        is_first_index_of(s, c, j),
    ensures
        i == j,
{
    if i < j {
        assert(s[i] != c);
    }
    if j < i {
        assert(s[j] != c);
    }
}

/// Split off the resource: the part before the first `/`, and, when a `/`
/// is present, everything after it.
pub open spec fn spec_split_resource(s: Seq<char>) -> (Seq<char>, Option<Seq<char>>) {
    if has_char(s, '/') {
        let i = first_index_of(s, '/');
        (s.take(i), Some(s.skip(i + 1)))
    } else {
        (s, None)
    }
}

/// Parse the bare part: node up to the first `@` when one is present,
/// then the domain.
pub open spec fn spec_parse_bare(s: Seq<char>) -> Result<BareJidView, JidError> {
    if has_char(s, '@') {
        let i = first_index_of(s, '@');
        let node = s.take(i);
        let domain = s.skip(i + 1);
        if node.len() == 0 {
            Err(JidError::EmptyNode)
        } else if domain.len() == 0 {
            Err(JidError::EmptyDomain)
        } else if has_char(domain, '@') {
            Err(JidError::InvalidDomain)
        } else {
            Ok(BareJidView { node: Some(node), domain })
        }
    } else {
        if s.len() == 0 {
            Err(JidError::EmptyDomain)
        } else {
            Ok(BareJidView { node: None, domain: s })
        }
    }
}

/// What parsing a piece of text as an address yields.
pub open spec fn spec_parse_jid(s: Seq<char>) -> Result<JidView, JidError> {
    let (bare_part, res) = spec_split_resource(s);
    match res {
        None => match spec_parse_bare(bare_part) {
            Ok(b) => Ok(JidView::Bare(b)),
            Err(e) => Err(e),
        },
        Some(r) => {
            if r.len() == 0 {
                Err(JidError::EmptyResource)
            } else {
                match spec_parse_bare(bare_part) {
                    Ok(b) => Ok(JidView::Full(FullJidView { bare: b, resource: r })),
                    Err(e) => Err(e),
                }
            }
        },
    }
}

/// Index of the first occurrence of `c` in `s`, if any.
pub fn find_char(s: &str, c: char) -> (r: Option<usize>)
    ensures
        match r {
            Some(i) => is_first_index_of(s@, c, i as int),
            None => !has_char(s@, c),
        },
{
    let n: usize = s.unicode_len();
    let mut i: usize = 0;
    while i < n
        invariant
            i <= n,
            n == s@.len(),
            forall|j: int| 0 <= j < i ==> s@[j] != c,
        decreases n - i,
    {
        if s.get_char(i) == c {
            return Some(i);
        }
        i = i + 1;
    }
    None
}

fn parse_bare(s: &str) -> (r: Result<BareJid, JidError>)
    ensures
        match r {
            Ok(b) => spec_parse_bare(s@) == Ok::<BareJidView, JidError>(b@),
            Err(e) => spec_parse_bare(s@) == Err::<BareJidView, JidError>(e),
        },
{
    let n: usize = s.unicode_len();
    match find_char(s, '@') {
        Some(i) => {
            proof {
                lemma_first_index_exists(s@, '@');
                lemma_first_index_unique(s@, '@', i as int, first_index_of(s@, '@'));
            }
            let node = s.substring_char(0, i);
            let domain = s.substring_char(i + 1, n);
            if node.unicode_len() == 0 {
                Err(JidError::EmptyNode)
            } else if domain.unicode_len() == 0 {
                Err(JidError::EmptyDomain)
            } else if find_char(domain, '@').is_some() {
                Err(JidError::InvalidDomain)
            } else {
                Ok(BareJid { node: Some(String::from_str(node)), domain: String::from_str(domain) })
            }
        },
        None => {
            if n == 0 {
                Err(JidError::EmptyDomain)
            } else {
                Ok(BareJid { node: None, domain: String::from_str(s) })
            }
        },
    }
}

/// Parse a piece of text as an address.
pub fn parse_jid(s: &str) -> (r: Result<Jid, JidError>)
    ensures
        match r {
            Ok(j) => spec_parse_jid(s@) == Ok::<JidView, JidError>(j@),
            Err(e) => spec_parse_jid(s@) == Err::<JidView, JidError>(e),
        },
{
    let n: usize = s.unicode_len();
    match find_char(s, '/') {
        Some(i) => {
            proof {
                lemma_first_index_exists(s@, '/');
                lemma_first_index_unique(s@, '/', i as int, first_index_of(s@, '/'));
            }
            let bare_part = s.substring_char(0, i);
            let resource = s.substring_char(i + 1, n);
            if resource.unicode_len() == 0 {
                Err(JidError::EmptyResource)
            } else {
                match parse_bare(bare_part) {
                    Ok(b) => Ok(
                        Jid::Full(FullJid { bare: b, resource: String::from_str(resource) }),
                    ),
                    Err(e) => Err(e),
                }
            }
        },
        None => {
            match parse_bare(s) {
                Ok(b) => Ok(Jid::Bare(b)),
                Err(e) => Err(e),
            }
        },
    }
}

} // verus!
