//! A parsed HTML page as a flat list of nodes in document (pre-order) order,
//! each carrying its depth, and the navigation the extractor needs on it.

use vstd::prelude::*;

verus! {

/// One node of a page. Text nodes have an empty `tag`; elements have an empty `text`.
pub struct DomNode {
    pub depth: usize,
    pub tag: String,
    pub text: String,
    pub attrs: Vec<(String, String)>,
}

/// What a node is looked up by.
pub enum Selector {
    /// The whitespace-separated `class` attribute holds this word.
    HasClass(String),
    /// The attribute named first has exactly the value named second.
    AttrIs(String, String),
    /// The element has this tag name.
    Tag(String),
}

/// What a selector means, over plain character sequences.
pub enum SelectorView {
    HasClass(Seq<char>),
    AttrIs(Seq<char>, Seq<char>),
    Tag(Seq<char>),
}

impl View for Selector {
    type V = SelectorView;

    open spec fn view(&self) -> SelectorView {
        match self {
            Selector::HasClass(c) => SelectorView::HasClass(c@),
            Selector::AttrIs(a, v) => SelectorView::AttrIs(a@, v@),
            Selector::Tag(t) => SelectorView::Tag(t@),
        }
    }
}

/// Unicode `White_Space`, as `char::is_whitespace` tests it.
pub open spec fn is_space(c: char) -> bool {
    let u = c as u32;
    (0x09 <= u <= 0x0d) || u == 0x20 || u == 0x85 || u == 0xa0 || u == 0x1680 || (0x2000 <= u <= 0x200a) || u
        == 0x2028 || u == 0x2029 || u == 0x202f || u == 0x205f || u == 0x3000
}

/// The words among the first `n` characters: maximal runs without whitespace.
pub open spec fn words_upto(s: Seq<char>, n: int) -> Seq<Seq<char>>
    decreases n,
{
    if n <= 0 || n > s.len() {
        Seq::empty()
    } else {
        let w = words_upto(s, n - 1);
        if is_space(s[n - 1]) {
            w
        } else if n == 1 || is_space(s[n - 2]) {
            w.push(seq![s[n - 1]])
        } else {
            w.update(w.len() - 1, w.last().push(s[n - 1]))
        }
    }
}

pub open spec fn whitespace_split(s: Seq<char>) -> Seq<Seq<char>> {
    words_upto(s, s.len() as int)
}

/// Relies on `str::split_whitespace`: the maximal runs of characters for
/// which `char::is_whitespace` does not hold, in order.
#[verifier::external_body]
fn split_words(s: &String) -> (r: Vec<String>)
    ensures
        r@.map_values(|w: String| w@) == whitespace_split(s@),
{
    s.split_whitespace().map(|w| w.to_string()).collect()
}

pub open spec fn attr_from(attrs: Seq<(String, String)>, name: Seq<char>, k: int) -> Option<Seq<char>>
    decreases attrs.len() - k,
{
    if k < 0 || k >= attrs.len() {
        None
    } else if attrs[k].0@ == name {
        Some(attrs[k].1@)
    } else {
        attr_from(attrs, name, k + 1)
    }
}

/// The value of the first attribute with this name.
pub open spec fn attr_value(n: DomNode, name: Seq<char>) -> Option<Seq<char>> {
    attr_from(n.attrs@, name, 0)
}

pub open spec fn matches(n: DomNode, sel: SelectorView) -> bool {
    match sel {
        SelectorView::HasClass(c) => match attr_value(n, seq!['c', 'l', 'a', 's', 's']) {
            Some(v) => whitespace_split(v).contains(c),
            None => false,
        },
        SelectorView::AttrIs(a, v) => attr_value(n, a) == Some(v),
        SelectorView::Tag(t) => n.tag@ == t,
    }
}

/// First index in `[lo, hi)` whose node matches.
pub open spec fn first_match(d: Seq<DomNode>, lo: int, hi: int, sel: SelectorView) -> Option<int>
    decreases hi - lo,
{
    if lo >= hi || lo < 0 || hi > d.len() {
        None
    } else if matches(d[lo], sel) {
        Some(lo)
    } else {
        first_match(d, lo + 1, hi, sel)
    }
}

pub open spec fn scan_end(d: Seq<DomNode>, i: int, j: int) -> int
    decreases d.len() - j,
{
    if j >= d.len() || d[j].depth <= d[i].depth {
        j
    } else {
        scan_end(d, i, j + 1)
    }
}

/// One past the last node of the subtree rooted at `i`.
pub open spec fn subtree_end(d: Seq<DomNode>, i: int) -> int {
    scan_end(d, i, i + 1)
}

/// The `k`-th node (from 0) at depth `dep` in `[lo, hi)`.
pub open spec fn kth_at_depth(d: Seq<DomNode>, lo: int, hi: int, dep: int, k: int) -> Option<int>
    decreases hi - lo,
{
    if lo >= hi || lo < 0 || hi > d.len() {
        None
    } else if d[lo].depth == dep {
        if k == 0 {
            Some(lo)
        } else {
            kth_at_depth(d, lo + 1, hi, dep, k - 1)
        }
    } else {
        kth_at_depth(d, lo + 1, hi, dep, k)
    }
}

/// The last node at depth `dep` in `[lo, hi)`.
pub open spec fn last_at_depth(d: Seq<DomNode>, lo: int, hi: int, dep: int) -> Option<int>
    decreases hi - lo,
{
    if lo >= hi || lo < 0 || hi > d.len() {
        None
    } else if d[hi - 1].depth == dep {
        Some(hi - 1)
    } else {
        last_at_depth(d, lo, hi - 1, dep)
    }
}

/// The `k`-th child of `i`, text nodes included.
pub open spec fn nth_child(d: Seq<DomNode>, i: int, k: int) -> Option<int> {
    kth_at_depth(d, i + 1, subtree_end(d, i), d[i].depth + 1, k)
}

pub open spec fn last_child(d: Seq<DomNode>, i: int) -> Option<int> {
    last_at_depth(d, i + 1, subtree_end(d, i), d[i].depth + 1)
}

/// The nearest node before `hi` that is shallower than `dep`.
pub open spec fn last_above(d: Seq<DomNode>, hi: int, dep: int) -> Option<int>
    decreases hi,
{
    if hi <= 0 || hi > d.len() {
        None
    } else if d[hi - 1].depth < dep {
        Some(hi - 1)
    } else {
        last_above(d, hi - 1, dep)
    }
}

pub open spec fn parent(d: Seq<DomNode>, i: int) -> Option<int> {
    last_above(d, i, d[i].depth as int)
}

pub open spec fn text_range(d: Seq<DomNode>, lo: int, hi: int) -> Seq<char>
    decreases hi - lo,
{
    if hi <= lo || lo < 0 || hi > d.len() {
        Seq::empty()
    } else if d[hi - 1].tag@.len() == 0 {
        text_range(d, lo, hi - 1) + d[hi - 1].text@
    } else {
        text_range(d, lo, hi - 1)
    }
}

/// The text of the node and of all its descendants, in order.
pub open spec fn text_of(d: Seq<DomNode>, i: int) -> Seq<char> {
    text_range(d, i, subtree_end(d, i))
}

pub open spec fn opt_view(o: Option<String>) -> Option<Seq<char>> {
    match o {
        Some(s) => Some(s@),
        None => None,
    }
}

pub proof fn lemma_scan_end_bounds(d: Seq<DomNode>, i: int, j: int)
    requires
        0 <= i < d.len(),
        i < j <= d.len(),
    ensures
        j <= scan_end(d, i, j) <= d.len(),
    decreases d.len() - j,
{
    if j < d.len() && d[j].depth > d[i].depth {
        lemma_scan_end_bounds(d, i, j + 1);
    }
}

pub fn attr_of(n: &DomNode, name: &String) -> (r: Option<String>)
    ensures
        opt_view(r) == attr_value(*n, name@),
{
    let mut k: usize = 0;
    while k < n.attrs.len()
        invariant
            k <= n.attrs@.len(),
            attr_value(*n, name@) == attr_from(n.attrs@, name@, k as int),
        decreases n.attrs@.len() - k,
    {
        if n.attrs[k].0 == *name {
            return Some(n.attrs[k].1.clone());
        }
        k += 1;
    }
    None
}

pub fn node_matches(n: &DomNode, sel: &Selector) -> (r: bool)
    ensures
        r == matches(*n, sel@),
{
    match sel {
        Selector::HasClass(c) => {
            let class_name = String::from_str("class");
            proof {
                reveal_strlit("class");
                assert(class_name@ =~= seq!['c', 'l', 'a', 's', 's']);
            }
            match attr_of(n, &class_name) {
                None => false,
                Some(v) => {
                    let words = split_words(&v);
                    let ghost ws = whitespace_split(v@);
                    let mut k: usize = 0;
                    while k < words.len()
                        invariant
                            k <= words@.len(),
                            ws == words@.map_values(|w: String| w@),
                            ws == whitespace_split(v@),
                            attr_value(*n, seq!['c', 'l', 'a', 's', 's']) == Some(v@),
                            sel@ == SelectorView::HasClass(c@),
                            forall|m: int| 0 <= m < k ==> ws[m] != c@,
                        decreases words@.len() - k,
                    {
                        if words[k] == *c {
                            assert(words@[k as int]@ == c@);
                            assert(ws[k as int] == c@);
                            assert(ws.contains(c@));
                            return true;
                        }
                        k += 1;
                    }
                    proof {
                        if ws.contains(c@) {
                            let m = choose|m: int| 0 <= m < ws.len() && ws[m] == c@;
                            assert(ws[m] != c@);
                        }
                    }
                    false
                }
            }
        },
        Selector::AttrIs(a, v) => {
            match attr_of(n, a) {
                None => false,
                Some(x) => x == *v,
            }
        },
        Selector::Tag(t) => n.tag == *t,
    }
}

pub fn find_first(d: &Vec<DomNode>, lo: usize, hi: usize, sel: &Selector) -> (r: Option<usize>)
    requires
        lo <= hi <= d@.len(),
    ensures
        match r {
            Some(i) => first_match(d@, lo as int, hi as int, sel@) == Some(i as int) && lo <= i < hi,
            None => first_match(d@, lo as int, hi as int, sel@) is None,
        },
{
    let mut j: usize = lo;
    while j < hi
        invariant
            lo <= j <= hi <= d@.len(),
            first_match(d@, lo as int, hi as int, sel@) == first_match(d@, j as int, hi as int, sel@),
        decreases hi - j,
    {
        if node_matches(&d[j], sel) {
            return Some(j);
        }
        j += 1;
    }
    None
}

pub fn end_of_subtree(d: &Vec<DomNode>, i: usize) -> (r: usize)
    requires
        i < d@.len(),
    ensures
        r == subtree_end(d@, i as int),
        i < r <= d@.len(),
{
    let n = d.len();
    proof { lemma_scan_end_bounds(d@, i as int, i + 1); }
    let mut j: usize = i + 1;
    while j < d.len() && d[j].depth > d[i].depth
        invariant
            i < j <= d@.len(),
            scan_end(d@, i as int, j as int) == subtree_end(d@, i as int),
        decreases d@.len() - j,
    {
        j += 1;
    }
    j
}

pub fn find_kth_at_depth(d: &Vec<DomNode>, lo: usize, hi: usize, dep: usize, k: usize) -> (r: Option<usize>)
    requires
        lo <= hi <= d@.len(),
    ensures
        match r {
            Some(i) => kth_at_depth(d@, lo as int, hi as int, dep as int, k as int) == Some(i as int) && i < hi,
            None => kth_at_depth(d@, lo as int, hi as int, dep as int, k as int) is None,
        },
{
    let mut j: usize = lo;
    let mut left: usize = k;
    while j < hi
        invariant
            lo <= j <= hi <= d@.len(),
            kth_at_depth(d@, lo as int, hi as int, dep as int, k as int) == kth_at_depth(
                d@,
                j as int,
                hi as int,
                dep as int,
                left as int,
            ),
        decreases hi - j,
    {
        if d[j].depth == dep {
            if left == 0 {
                return Some(j);
            }
            left -= 1;
        }
        j += 1;
    }
    None
}

pub fn find_last_at_depth(d: &Vec<DomNode>, lo: usize, hi: usize, dep: usize) -> (r: Option<usize>)
    requires
        lo <= hi <= d@.len(),
    ensures
        match r {
            Some(i) => last_at_depth(d@, lo as int, hi as int, dep as int) == Some(i as int) && i < hi,
            None => last_at_depth(d@, lo as int, hi as int, dep as int) is None,
        },
{
    let mut j: usize = hi;
    while j > lo
        invariant
            lo <= j <= hi <= d@.len(),
            last_at_depth(d@, lo as int, hi as int, dep as int) == last_at_depth(d@, lo as int, j as int, dep as int),
        decreases j,
    {
        if d[j - 1].depth == dep {
            return Some(j - 1);
        }
        j -= 1;
    }
    None
}

/// The `k`-th child of node `i`.
pub fn child_at(d: &Vec<DomNode>, i: usize, k: usize) -> (r: Option<usize>)
    requires
        i < d@.len(),
    ensures
        match r {
            Some(c) => nth_child(d@, i as int, k as int) == Some(c as int) && c < d@.len(),
            None => nth_child(d@, i as int, k as int) is None,
        },
{
    let end = end_of_subtree(d, i);
    if d[i].depth == usize::MAX {
        proof {
            assert(i + 1 == end || d@[i + 1].depth <= d@[i as int].depth);
            assert(kth_at_depth(d@, i + 1, end as int, d@[i as int].depth + 1, k as int) is None) by {
                lemma_no_deeper(d@, i as int, i + 1, end as int, k as int);
            }
        }
        return None;
    }
    find_kth_at_depth(d, i + 1, end, d[i].depth + 1, k)
}

/// The last child of node `i`.
pub fn child_last(d: &Vec<DomNode>, i: usize) -> (r: Option<usize>)
    requires
        i < d@.len(),
    ensures
        match r {
            Some(c) => last_child(d@, i as int) == Some(c as int) && c < d@.len(),
            None => last_child(d@, i as int) is None,
        },
{
    let end = end_of_subtree(d, i);
    if d[i].depth == usize::MAX {
        proof { lemma_no_deeper_last(d@, i as int, i + 1, end as int); }
        return None;
    }
    find_last_at_depth(d, i + 1, end, d[i].depth + 1)
}

proof fn lemma_no_deeper(d: Seq<DomNode>, i: int, lo: int, hi: int, k: int)
    requires
        0 <= i < d.len(),
        i < lo <= hi <= d.len(),
        d[i].depth == usize::MAX,
    ensures
        kth_at_depth(d, lo, hi, d[i].depth + 1, k) is None,
    decreases hi - lo,
{
    if lo < hi {
        lemma_no_deeper(d, i, lo + 1, hi, if d[lo].depth == d[i].depth + 1 { k - 1 } else { k });
    }
}

proof fn lemma_no_deeper_last(d: Seq<DomNode>, i: int, lo: int, hi: int)
    requires
        0 <= i < d.len(),
        i < lo <= hi <= d.len(),
        d[i].depth == usize::MAX,
    ensures
        last_at_depth(d, lo, hi, d[i].depth + 1) is None,
    decreases hi - lo,
{
    if lo < hi {
        lemma_no_deeper_last(d, i, lo, hi - 1);
    }
}

/// The parent of node `i`.
pub fn parent_of(d: &Vec<DomNode>, i: usize) -> (r: Option<usize>)
    requires
        i < d@.len(),
    ensures
        match r {
            Some(p) => parent(d@, i as int) == Some(p as int) && p < i,
            None => parent(d@, i as int) is None,
        },
{
    let mut j: usize = i;
    while j > 0
        invariant
            j <= i < d@.len(),
            parent(d@, i as int) == last_above(d@, j as int, d@[i as int].depth as int),
        decreases j,
    {
        if d[j - 1].depth < d[i].depth {
            return Some(j - 1);
        }
        j -= 1;
    }
    None
}

/// The text of node `i` and of all its descendants.
pub fn text_at(d: &Vec<DomNode>, i: usize) -> (r: String)
    requires
        i < d@.len(),
    ensures
        r@ == text_of(d@, i as int),
{
    let end = end_of_subtree(d, i);
    let mut s = String::new();
    let mut j: usize = i;
    while j < end
        invariant
            i <= j <= end <= d@.len(),
            end == subtree_end(d@, i as int),
            s@ == text_range(d@, i as int, j as int),
        decreases end - j,
    {
        if d[j].tag.as_str().is_empty() {
            s.append(d[j].text.as_str());
        }
        j += 1;
    }
    s
}

} // verus!
