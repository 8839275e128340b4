//! The parameterized routing trie and the per-method router.
//!
//! A trie node maps literal path segments and `:name` parameter segments to
//! child nodes, and may bind a handler.  Registration consumes one segment
//! per level, ignoring a single leading `/` at each step; looking up tries
//! the literal child first and then the parameter children in registration
//! order (a deterministic first-registered-wins tie-break), binding each
//! matched parameter segment under its name with the `:` stripped.

use vstd::prelude::*;

use crate::method::HttpMethod;
use crate::strmap::StringMap;
use crate::strmap::bind;
use crate::strmap::str_eq;
use crate::text::find_char;
use crate::text::first_index;
use crate::text::lemma_first_index;
use crate::text::views_of;

verus! {

/// A node of the routing trie.
pub struct RouteTree<H> {
    pub children: Vec<(String, RouteTree<H>)>,
    pub param_children: Vec<(String, RouteTree<H>)>,
    pub handler: Option<H>,
}

/// The index of the first child whose key reads `key`, or -1.
pub open spec fn node_index<H>(cs: Seq<(String, RouteTree<H>)>, key: Seq<char>) -> int
    decreases cs.len(),
{
    if cs.len() == 0 {
        -1
    } else if cs[0].0@ == key {
        0
    } else {
        let r = node_index(cs.drop_first(), key);
        if r < 0 {
            -1
        } else {
            r + 1
        }
    }
}

/// What `node_index` finds: a valid position whose key reads `key`, with
/// no earlier such position; or -1 when no key matches.
pub proof fn lemma_node_index<H>(cs: Seq<(String, RouteTree<H>)>, key: Seq<char>)
    ensures
        node_index(cs, key) == -1 <==> (forall|j: int|
            0 <= j < cs.len() ==> (#[trigger] cs[j]).0@ != key),
        node_index(cs, key) >= 0 ==> {
            let ni = node_index(cs, key);
            &&& ni < cs.len()
            &&& cs[ni].0@ == key
            &&& forall|j: int| 0 <= j < ni ==> (#[trigger] cs[j]).0@ != key
        },
    decreases cs.len(),
{
    if cs.len() == 0 {
    } else if cs[0].0@ == key {
    } else {
        let ct = cs.drop_first();
        lemma_node_index(ct, key);
        let r = node_index(ct, key);
        if r == -1 {
            assert forall|j: int| 0 <= j < cs.len() implies (#[trigger] cs[j]).0@ != key by {
                if j >= 1 {
                    assert(cs[j] == ct[j - 1]);
                }
            }
        } else {
            assert(cs[r + 1] == ct[r]);
            assert forall|j: int| 0 <= j < r + 1 implies (#[trigger] cs[j]).0@ != key by {
                if j >= 1 {
                    assert(cs[j] == ct[j - 1]);
                }
            }
        }
    }
}

/// Two child lists whose keys read the same find them at the same place.
pub proof fn lemma_node_index_same_keys<H>(
    cs0: Seq<(String, RouteTree<H>)>,
    cs1: Seq<(String, RouteTree<H>)>,
    key: Seq<char>,
)
    requires
        cs0.len() == cs1.len(),
        forall|j: int| 0 <= j < cs0.len() ==> (#[trigger] cs1[j]).0@ == (#[trigger] cs0[j]).0@,
    ensures
        node_index(cs1, key) == node_index(cs0, key),
{
    lemma_node_index(cs0, key);
    lemma_node_index(cs1, key);
    let n0 = node_index(cs0, key);
    let n1 = node_index(cs1, key);
    if n0 == -1 && n1 >= 0 {
        assert(cs0[n1].0@ == key);
    }
    if n1 == -1 && n0 >= 0 {
        assert(cs1[n0].0@ == key);
    }
    if n0 >= 0 && n1 >= 0 && n0 != n1 {
        if n0 < n1 {
            assert(cs1[n0].0@ != key);
        } else {
            assert(cs0[n1].0@ != key);
        }
    }
}

/// Whether a segment declares a parameter: it begins with the `:` sigil.
pub open spec fn is_param_seg(seg: Seq<char>) -> bool {
    seg.len() > 0 && seg[0] == ':'
}

/// The name a parameter segment binds: its text with one leading `:`
/// stripped.
pub open spec fn param_name(key: Seq<char>) -> Seq<char> {
    if key.len() > 0 && key[0] == ':' {
        key.drop_first()
    } else {
        key
    }
}

/// The first segment of a registration path and the remainder: one leading
/// `/` is ignored, and the split is at the next `/`.
pub open spec fn split_first_segment(uri: Seq<char>) -> (Seq<char>, Seq<char>) {
    let s = if uri.len() > 0 && uri[0] == '/' {
        uri.drop_first()
    } else {
        uri
    };
    let j = first_index(s, '/');
    if j < 0 {
        (s, Seq::empty())
    } else {
        (s.take(j), s.skip(j + 1))
    }
}

/// The handler and parameter bindings a lookup of `segs` yields at `t`:
/// exhausted segments yield the node's own handler; otherwise the literal
/// child for the first segment is tried first, and the parameter children
/// in order only when the literal branch yields nothing.  Bindings are
/// collected deepest first, so that an outer parameter with the same name
/// overwrites an inner one when the bindings are applied in order.
pub open spec fn spec_find<H>(t: RouteTree<H>, segs: Seq<Seq<char>>) -> Option<
    (H, Seq<(Seq<char>, Seq<char>)>),
>
    decreases segs.len(), 1int, 0int,
    via spec_find_via::<H>
{
    if segs.len() == 0 {
        match t.handler {
            Some(h) => Some((h, Seq::empty())),
            None => None,
        }
    } else {
        let rest = segs.drop_first();
        let li = node_index(t.children@, segs[0]);
        let lit = if li >= 0 {
            spec_find(t.children@[li].1, rest)
        } else {
            None
        };
        match lit {
            Some(r) => Some(r),
            None => spec_find_params(t.param_children@, segs[0], rest),
        }
    }
}

/// The first parameter child whose subtree resolves `rest`, binding the
/// matched segment under the child's parameter name.
pub open spec fn spec_find_params<H>(
    cs: Seq<(String, RouteTree<H>)>,
    seg: Seq<char>,
    rest: Seq<Seq<char>>,
) -> Option<(H, Seq<(Seq<char>, Seq<char>)>)>
    decreases rest.len(), 2int, cs.len(),
{
    if cs.len() == 0 {
        None
    } else {
        match spec_find(cs[0].1, rest) {
            Some(r) => Some((r.0, r.1.push((param_name(cs[0].0@), seg)))),
            None => spec_find_params(cs.drop_first(), seg, rest),
        }
    }
}

#[via_fn]
proof fn spec_find_via<H>(t: RouteTree<H>, segs: Seq<Seq<char>>) {
    if segs.len() > 0 {
        lemma_node_index(t.children@, segs[0]);
    }
}

/// What binding a handler at the terminal segment `seg` does to a child
/// list: an existing child keeps its place and subtrees and takes the new
/// handler; otherwise a fresh leaf child is appended.
pub open spec fn terminal_update<H>(
    cs0: Seq<(String, RouteTree<H>)>,
    cs1: Seq<(String, RouteTree<H>)>,
    seg: Seq<char>,
    h: H,
) -> bool {
    let i = node_index(cs0, seg);
    if i >= 0 {
        &&& cs1.len() == cs0.len()
        &&& forall|j: int| 0 <= j < cs0.len() && j != i ==> (#[trigger] cs1[j]) == cs0[j]
        &&& cs1[i].0 == cs0[i].0
        &&& cs1[i].1.handler == Some(h)
        &&& cs1[i].1.children@ == cs0[i].1.children@
        &&& cs1[i].1.param_children@ == cs0[i].1.param_children@
    } else {
        &&& cs1.len() == cs0.len() + 1
        &&& forall|j: int| 0 <= j < cs0.len() ==> (#[trigger] cs1[j]) == cs0[j]
        &&& cs1.last().0@ == seg
        &&& cs1.last().1.handler == Some(h)
        &&& cs1.last().1.children@.len() == 0
        &&& cs1.last().1.param_children@.len() == 0
    }
}

/// What descending through segment `seg` with remainder `rest` does to a
/// child list: the registration continues in the existing child, or in a
/// fresh empty child appended at the end.
pub open spec fn step_update<H>(
    cs0: Seq<(String, RouteTree<H>)>,
    cs1: Seq<(String, RouteTree<H>)>,
    seg: Seq<char>,
    rest: Seq<char>,
    h: H,
) -> bool
    decreases rest.len(), 1int,
{
    let i = node_index(cs0, seg);
    if i >= 0 {
        &&& cs1.len() == cs0.len()
        &&& forall|j: int| 0 <= j < cs0.len() && j != i ==> (#[trigger] cs1[j]) == cs0[j]
        &&& cs1[i].0 == cs0[i].0
        &&& add_rel(
            cs0[i].1.children@,
            cs0[i].1.param_children@,
            cs0[i].1.handler,
            rest,
            h,
            cs1[i].1,
        )
    } else {
        &&& cs1.len() == cs0.len() + 1
        &&& forall|j: int| 0 <= j < cs0.len() ==> (#[trigger] cs1[j]) == cs0[j]
        &&& cs1.last().0@ == seg
        &&& add_rel(
            Seq::<(String, RouteTree<H>)>::empty(),
            Seq::<(String, RouteTree<H>)>::empty(),
            Option::<H>::None,
            rest,
            h,
            cs1.last().1,
        )
    }
}

/// How registration transforms a node, given the node's fields before
/// (`cs0` literal children, `ps0` parameter children, `h0` handler) and
/// the node after, `t1`.  The path `/` binds the handler at the node
/// itself; a terminal segment binds it in a child; otherwise registration
/// descends, creating the child on demand.  Re-registering a path
/// overwrites the handler at its terminal node: the last registration
/// wins.
pub open spec fn add_rel<H>(
    cs0: Seq<(String, RouteTree<H>)>,
    ps0: Seq<(String, RouteTree<H>)>,
    h0: Option<H>,
    uri: Seq<char>,
    h: H,
    t1: RouteTree<H>,
) -> bool
    decreases uri.len(), 0int,
    via add_rel_via::<H>
{
    if uri == "/"@ {
        &&& t1.handler == Some(h)
        &&& t1.children@ == cs0
        &&& t1.param_children@ == ps0
    } else {
        let (seg, rest) = split_first_segment(uri);
        if rest.len() == 0 {
            &&& t1.handler == h0
            &&& if is_param_seg(seg) {
                t1.children@ == cs0 && terminal_update(ps0, t1.param_children@, seg, h)
            } else {
                t1.param_children@ == ps0 && terminal_update(cs0, t1.children@, seg, h)
            }
        } else {
            &&& t1.handler == h0
            &&& if is_param_seg(seg) {
                t1.children@ == cs0 && step_update(ps0, t1.param_children@, seg, rest, h)
            } else {
                t1.param_children@ == ps0 && step_update(cs0, t1.children@, seg, rest, h)
            }
        }
    }
}

#[via_fn]
proof fn add_rel_via<H>(
    cs0: Seq<(String, RouteTree<H>)>,
    ps0: Seq<(String, RouteTree<H>)>,
    h0: Option<H>,
    uri: Seq<char>,
    h: H,
    t1: RouteTree<H>,
) {
    lemma_split_shrinks(uri);
}

/// The remainder of a split is strictly shorter than the path.
pub proof fn lemma_split_shrinks(uri: Seq<char>)
    ensures
        split_first_segment(uri).1.len() < uri.len() || uri.len() == 0,
        split_first_segment(uri).0.len() <= uri.len(),
{
    let s = if uri.len() > 0 && uri[0] == '/' {
        uri.drop_first()
    } else {
        uri
    };
    lemma_first_index(s, '/');
}

/// The map after applying parameter bindings in order, each overwriting an
/// earlier binding with the same name.
pub open spec fn apply_bindings(
    m: Seq<(Seq<char>, Seq<char>)>,
    bs: Seq<(Seq<char>, Seq<char>)>,
) -> Seq<(Seq<char>, Seq<char>)>
    decreases bs.len(),
{
    if bs.len() == 0 {
        m
    } else {
        apply_bindings(bind(m, bs[0].0, bs[0].1), bs.drop_first())
    }
}

/// Applying one more binding at the end binds it over the result of the
/// earlier ones.
pub proof fn lemma_apply_bindings_push(
    m: Seq<(Seq<char>, Seq<char>)>,
    bs: Seq<(Seq<char>, Seq<char>)>,
    x: (Seq<char>, Seq<char>),
)
    ensures
        apply_bindings(m, bs.push(x)) == bind(apply_bindings(m, bs), x.0, x.1),
    decreases bs.len(),
{
    if bs.len() == 0 {
        assert(bs.push(x)[0] == x);
        assert(bs.push(x).drop_first() =~= Seq::<(Seq<char>, Seq<char>)>::empty());
        assert(apply_bindings(m, bs.push(x)) == apply_bindings(
            bind(m, x.0, x.1),
            bs.push(x).drop_first(),
        ));
        assert(apply_bindings(m, bs.push(x)) == bind(m, x.0, x.1));
        assert(apply_bindings(m, bs) == m);
    } else {
        let b0 = bs[0];
        assert(bs.push(x)[0] == b0);
        assert(bs.push(x).drop_first() =~= bs.drop_first().push(x));
        assert(apply_bindings(m, bs.push(x)) == apply_bindings(
            bind(m, b0.0, b0.1),
            bs.drop_first().push(x),
        ));
        lemma_apply_bindings_push(bind(m, b0.0, b0.1), bs.drop_first(), x);
        assert(apply_bindings(m, bs) == apply_bindings(bind(m, b0.0, b0.1), bs.drop_first()));
    }
}

/// Whether a node has no children and no handler.
pub open spec fn is_empty_node<H>(t: RouteTree<H>) -> bool {
    t.children@.len() == 0 && t.param_children@.len() == 0 && t.handler is None
}

/// The position of the first child of `cs` whose key reads `key`, if any.
fn node_position<H>(cs: &Vec<(String, RouteTree<H>)>, key: &str) -> (r: Option<usize>)
    ensures
        match r {
            Some(i) => i == node_index(cs@, key@) && i < cs@.len(),
            None => node_index(cs@, key@) == -1,
        },
{
    proof {
        lemma_node_index(cs@, key@);
    }
    let n = cs.len();
    let mut i: usize = 0;
    while i < n
        invariant
            0 <= i <= n == cs@.len(),
            forall|j: int| 0 <= j < i ==> (#[trigger] cs@[j]).0@ != key@,
        decreases n - i,
    {
        if str_eq(cs[i].0.as_str(), key) {
            proof {
                lemma_node_index(cs@, key@);
            }
            return Some(i);
        }
        i = i + 1;
    }
    None
}

/// Binds `handler` at the terminal segment `seg` within `cs`.
fn bind_terminal<H>(cs: &mut Vec<(String, RouteTree<H>)>, seg: String, handler: H)
    ensures
        terminal_update(old(cs)@, final(cs)@, seg@, handler),
{
    proof {
        lemma_node_index(cs@, seg@);
    }
    match node_position(cs, seg.as_str()) {
        Some(i) => {
            let ghost cs0 = cs@;
            let (k, node) = cs.remove(i);
            let RouteTree { children, param_children, handler: _ } = node;
            let node2 = RouteTree { children, param_children, handler: Some(handler) };
            cs.insert(i, (k, node2));
            proof {
                assert forall|j: int| 0 <= j < cs0.len() && j != i implies (#[trigger] cs@[j])
                    == cs0[j] by {
                    if j < i {
                        assert(cs@[j] == cs0.remove(i as int)[j]);
                    } else {
                        assert(cs@[j] == cs0.remove(i as int)[j - 1]);
                    }
                }
            }
        },
        None => {
            let node = RouteTree {
                children: Vec::new(),
                param_children: Vec::new(),
                handler: Some(handler),
            };
            cs.push((seg, node));
        },
    }
}

/// Continues a registration below the segment `seg` within `cs`.
fn bind_step<H>(cs: &mut Vec<(String, RouteTree<H>)>, seg: String, rest: String, handler: H)
    ensures
        step_update(old(cs)@, final(cs)@, seg@, rest@, handler),
    decreases rest@.len(), 1int,
{
    proof {
        lemma_node_index(cs@, seg@);
    }
    match node_position(cs, seg.as_str()) {
        Some(i) => {
            let ghost cs0 = cs@;
            let (k, mut node) = cs.remove(i);
            node.add(rest, handler);
            cs.insert(i, (k, node));
            proof {
                assert forall|j: int| 0 <= j < cs0.len() && j != i implies (#[trigger] cs@[j])
                    == cs0[j] by {
                    if j < i {
                        assert(cs@[j] == cs0.remove(i as int)[j]);
                    } else {
                        assert(cs@[j] == cs0.remove(i as int)[j - 1]);
                    }
                }
            }
        },
        None => {
            let mut node: RouteTree<H> = RouteTree {
                children: Vec::new(),
                param_children: Vec::new(),
                handler: None,
            };
            node.add(rest, handler);
            cs.push((seg, node));
        },
    }
}

impl<H> RouteTree<H> {
    /// A node with no children and no handler.
    pub fn new() -> (r: Self)
        ensures
            is_empty_node(r),
    {
        RouteTree { children: Vec::new(), param_children: Vec::new(), handler: None }
    }

    /// Registers `handler` under the path `uri`, per [`add_rel`].
    pub fn add(&mut self, uri: String, handler: H)
        ensures
            add_rel(
                old(self).children@,
                old(self).param_children@,
                old(self).handler,
                uri@,
                handler,
                *final(self),
            ),
        decreases uri@.len(), 0int,
    {
        if str_eq(uri.as_str(), "/") {
            self.handler = Some(handler);
            return ;
        }
        let n = uri.unicode_len();
        let stripped = if n > 0 && uri.as_str().get_char(0) == '/' {
            uri.as_str().substring_char(1, n)
        } else {
            uri.as_str()
        };
        proof {
            assert(uri@.subrange(1, n as int) =~= uri@.drop_first());
            lemma_first_index(stripped@, '/');
        }
        let sn = stripped.unicode_len();
        let (seg, rest): (String, String) = match find_char(stripped, '/') {
            None => (stripped.to_owned(), String::new()),
            Some(j) => (
                stripped.substring_char(0, j).to_owned(),
                stripped.substring_char(j + 1, sn).to_owned(),
            ),
        };
        proof {
            assert(seg@ == split_first_segment(uri@).0);
            assert(rest@ == split_first_segment(uri@).1);
        }
        let is_param = seg.unicode_len() > 0 && seg.as_str().get_char(0) == ':';
        if rest.unicode_len() == 0 {
            if is_param {
                bind_terminal(&mut self.param_children, seg, handler);
            } else {
                bind_terminal(&mut self.children, seg, handler);
            }
        } else {
            if is_param {
                bind_step(&mut self.param_children, seg, rest, handler);
            } else {
                bind_step(&mut self.children, seg, rest, handler);
            }
        }
    }

    /// Resolves `segments` from position `i` on, per [`spec_find`],
    /// inserting the matched parameter bindings into `params`.
    #[verifier::loop_isolation(false)]
    fn find_from<'a>(
        &'a self,
        segments: &Vec<String>,
        i: usize,
        params: &mut StringMap<String>,
    ) -> (r: Option<&'a H>)
        requires
            i <= segments@.len(),
        ensures
            match spec_find(*self, views_of(segments@).skip(i as int)) {
                Some(p) => {
                    &&& r is Some
                    &&& *r->Some_0 == p.0
                    &&& crate::strmap::viewed_pairs(final(params)@) == apply_bindings(
                        crate::strmap::viewed_pairs(old(params)@),
                        p.1,
                    )
                },
                None => r is None && final(params)@ == old(params)@,
            },
        decreases segments@.len() - i,
    {
        let ghost segs = views_of(segments@).skip(i as int);
        if i == segments.len() {
            proof {
                assert(segs.len() == 0);
            }
            return self.handler.as_ref();
        }
        proof {
            assert(segs[0] == segments@[i as int]@);
            assert(segs.drop_first() =~= views_of(segments@).skip(i + 1 as int));
        }
        match node_position(&self.children, segments[i].as_str()) {
            Some(ci) => {
                let child = &self.children[ci].1;
                let found = child.find_from(segments, i + 1, params);
                if found.is_some() {
                    return found;
                }
            },
            None => {},
        }
        let pn = self.param_children.len();
        let mut k: usize = 0;
        while k < pn
            invariant
                0 <= k <= pn,
                params@ == old(params)@,
                forall|j: int|
                    0 <= j < k ==> spec_find(
                        (#[trigger] self.param_children@[j]).1,
                        segs.drop_first(),
                    ) is None,
            decreases pn - k,
        {
            let child = &self.param_children[k].1;
            match child.find_from(segments, i + 1, params) {
                Some(h) => {
                    let name = param_name_exec(self.param_children[k].0.as_str());
                    let ghost gname = name;
                    let value = segments[i].clone();
                    let ghost gvalue = value;
                    let ghost ps = params@;
                    params.insert(name, value);
                    proof {
                        crate::strmap::lemma_bind_viewed(ps, gname@, gvalue);
                        let ps0 = self.param_children@;
                        let rest = segs.drop_first();
                        lemma_find_params_prefix(ps0, segs[0], rest, k as int);
                        assert(ps0.skip(k as int)[0] == ps0[k as int]);
                        assert(ps0.skip(k as int).drop_first() =~= ps0.skip(k + 1 as int));
                        let p = spec_find(ps0[k as int].1, rest)->Some_0;
                        assert(spec_find_params(ps0.skip(k as int), segs[0], rest)
                            == Some((p.0, p.1.push((param_name(ps0[k as int].0@), segs[0])))));
                        lemma_apply_bindings_push(
                            crate::strmap::viewed_pairs(old(params)@),
                            p.1,
                            (param_name(ps0[k as int].0@), segs[0]),
                        );
                    }
                    return Some(h);
                },
                None => {},
            }
            k = k + 1;
        }
        proof {
            lemma_find_params_prefix(self.param_children@, segs[0], segs.drop_first(), pn as int);
        }
        None
    }

    /// Resolves a segment sequence to a handler, binding the matched
    /// parameters into `params`; per [`spec_find`].
    pub fn find_match<'a>(
        &'a self,
        segments: &Vec<String>,
        params: &mut StringMap<String>,
    ) -> (r: Option<&'a H>)
        ensures
            match spec_find(*self, views_of(segments@)) {
                Some(p) => {
                    &&& r is Some
                    &&& *r->Some_0 == p.0
                    &&& crate::strmap::viewed_pairs(final(params)@) == apply_bindings(
                        crate::strmap::viewed_pairs(old(params)@),
                        p.1,
                    )
                },
                None => r is None && final(params)@ == old(params)@,
            },
    {
        proof {
            assert(views_of(segments@).skip(0) =~= views_of(segments@));
        }
        self.find_from(segments, 0, params)
    }
}

/// When the first `k` parameter children resolve nothing, the search over
/// the whole list is the search over the rest.
proof fn lemma_find_params_prefix<H>(
    cs: Seq<(String, RouteTree<H>)>,
    seg: Seq<char>,
    rest: Seq<Seq<char>>,
    k: int,
)
    requires
        0 <= k <= cs.len(),
        forall|j: int| 0 <= j < k ==> spec_find((#[trigger] cs[j]).1, rest) is None,
    ensures
        spec_find_params(cs, seg, rest) == spec_find_params(cs.skip(k), seg, rest),
    decreases k,
{
    if k > 0 {
        assert(spec_find(cs[0].1, rest) is None);
        let ct = cs.drop_first();
        assert forall|j: int| 0 <= j < k - 1 implies spec_find(
            (#[trigger] ct[j]).1,
            rest,
        ) is None by {
            assert(ct[j] == cs[j + 1]);
        }
        lemma_find_params_prefix(ct, seg, rest, k - 1);
        assert(ct.skip(k - 1) =~= cs.skip(k));
    } else {
        assert(cs.skip(0) =~= cs);
    }
}

/// The parameter name an exec segment key binds.
fn param_name_exec(key: &str) -> (r: String)
    ensures
        r@ == param_name(key@),
{
    let n = key.unicode_len();
    if n > 0 && key.get_char(0) == ':' {
        let r = key.substring_char(1, n).to_owned();
        proof {
            assert(key@.subrange(1, n as int) =~= key@.drop_first());
        }
        r
    } else {
        key.to_owned()
    }
}


/// The segments a registration path binds, one per trie level.
pub open spec fn reg_segments(uri: Seq<char>) -> Seq<Seq<char>>
    decreases uri.len(), 0int,
    via reg_segments_via
{
    if uri == "/"@ {
        Seq::empty()
    } else {
        let (seg, rest) = split_first_segment(uri);
        if rest.len() == 0 {
            seq![seg]
        } else {
            seq![seg] + reg_segments(rest)
        }
    }
}

#[via_fn]
proof fn reg_segments_via(uri: Seq<char>) {
    lemma_split_shrinks(uri);
}

/// Whether every segment of a registration path is literal.
pub open spec fn literal_path(uri: Seq<char>) -> bool
    decreases uri.len(), 0int,
    via literal_path_via
{
    if uri == "/"@ {
        true
    } else {
        let (seg, rest) = split_first_segment(uri);
        !is_param_seg(seg) && (rest.len() == 0 || literal_path(rest))
    }
}

#[via_fn]
proof fn literal_path_via(uri: Seq<char>) {
    lemma_split_shrinks(uri);
}

/// Whether `path_segs` matches the template `uri` segment by segment: a
/// parameter segment matches anything, a literal segment only itself.
pub open spec fn matches_template(uri: Seq<char>, path_segs: Seq<Seq<char>>) -> bool
    decreases uri.len(), 0int,
    via matches_template_via
{
    if uri == "/"@ {
        path_segs.len() == 0
    } else {
        let (seg, rest) = split_first_segment(uri);
        if rest.len() == 0 {
            path_segs.len() == 1 && (is_param_seg(seg) || path_segs[0] == seg)
        } else {
            path_segs.len() >= 1 && (is_param_seg(seg) || path_segs[0] == seg)
                && matches_template(rest, path_segs.drop_first())
        }
    }
}

#[via_fn]
proof fn matches_template_via(uri: Seq<char>, path_segs: Seq<Seq<char>>) {
    lemma_split_shrinks(uri);
}

/// The bindings matching `path_segs` against the template `uri` collects,
/// deepest first, as [`spec_find`] collects them.
pub open spec fn template_bindings(uri: Seq<char>, path_segs: Seq<Seq<char>>) -> Seq<
    (Seq<char>, Seq<char>),
>
    decreases uri.len(), 0int,
    via template_bindings_via
{
    if uri == "/"@ {
        Seq::empty()
    } else {
        let (seg, rest) = split_first_segment(uri);
        if rest.len() == 0 {
            if is_param_seg(seg) {
                seq![(param_name(seg), path_segs[0])]
            } else {
                Seq::empty()
            }
        } else {
            let deep = template_bindings(rest, path_segs.drop_first());
            if is_param_seg(seg) {
                deep.push((param_name(seg), path_segs[0]))
            } else {
                deep
            }
        }
    }
}

#[via_fn]
proof fn template_bindings_via(uri: Seq<char>, path_segs: Seq<Seq<char>>) {
    lemma_split_shrinks(uri);
}

/// Looking up a registered literal path finds the handler just bound
/// there, with no parameter bindings -- whatever the trie held before.
pub proof fn lemma_add_literal_found<H>(
    cs0: Seq<(String, RouteTree<H>)>,
    ps0: Seq<(String, RouteTree<H>)>,
    h0: Option<H>,
    uri: Seq<char>,
    h: H,
    t1: RouteTree<H>,
)
    requires
        add_rel(cs0, ps0, h0, uri, h, t1),
        literal_path(uri),
    ensures
        spec_find(t1, reg_segments(uri)) == Some((h, Seq::<(Seq<char>, Seq<char>)>::empty())),
    decreases uri.len(),
{
    if uri == "/"@ {
    } else {
        let (seg, rest) = split_first_segment(uri);
        lemma_split_shrinks(uri);
        let segs = reg_segments(uri);
        let cs1 = t1.children@;
        lemma_node_index(cs0, seg);
        lemma_node_index(cs1, seg);
        let i0 = node_index(cs0, seg);
        if rest.len() == 0 {
            assert(segs =~= seq![seg]);
            assert(segs.drop_first() =~= Seq::<Seq<char>>::empty());
            if i0 >= 0 {
                assert forall|j: int| 0 <= j < cs0.len() implies (#[trigger] cs1[j]).0@
                    == cs0[j].0@ by {}
                lemma_node_index_same_keys(cs0, cs1, seg);
                let child = cs1[i0].1;
                assert(spec_find(child, segs.drop_first()) == Some((
                    h,
                    Seq::<(Seq<char>, Seq<char>)>::empty(),
                )));
            } else {
                let last = cs0.len() as int;
                assert(cs1[last].0@ == seg);
                assert(node_index(cs1, seg) == last);
                let child = cs1[last].1;
                assert(spec_find(child, segs.drop_first()) == Some((
                    h,
                    Seq::<(Seq<char>, Seq<char>)>::empty(),
                )));
            }
        } else {
            assert(segs[0] == seg);
            assert(segs.drop_first() =~= reg_segments(rest));
            if i0 >= 0 {
                assert forall|j: int| 0 <= j < cs0.len() implies (#[trigger] cs1[j]).0@
                    == cs0[j].0@ by {}
                lemma_node_index_same_keys(cs0, cs1, seg);
                let child = cs1[i0].1;
                lemma_add_literal_found(
                    cs0[i0].1.children@,
                    cs0[i0].1.param_children@,
                    cs0[i0].1.handler,
                    rest,
                    h,
                    child,
                );
            } else {
                let last = cs0.len() as int;
                assert(cs1[last].0@ == seg);
                assert(node_index(cs1, seg) == last);
                let child = cs1[last].1;
                lemma_add_literal_found(
                    Seq::<(String, RouteTree<H>)>::empty(),
                    Seq::<(String, RouteTree<H>)>::empty(),
                    Option::<H>::None,
                    rest,
                    h,
                    child,
                );
            }
        }
    }
}

/// Registering the same literal path twice leaves the handler of the
/// later registration bound: the lookup is unaffected by the earlier one.
pub proof fn lemma_readd_literal_wins<H>(
    cs0: Seq<(String, RouteTree<H>)>,
    ps0: Seq<(String, RouteTree<H>)>,
    h0: Option<H>,
    uri: Seq<char>,
    h1: H,
    t1: RouteTree<H>,
    h2: H,
    t2: RouteTree<H>,
)
    requires
        add_rel(cs0, ps0, h0, uri, h1, t1),
        add_rel(t1.children@, t1.param_children@, t1.handler, uri, h2, t2),
        literal_path(uri),
    ensures
        spec_find(t2, reg_segments(uri)) == Some((h2, Seq::<(Seq<char>, Seq<char>)>::empty())),
{
    lemma_add_literal_found(t1.children@, t1.param_children@, t1.handler, uri, h2, t2);
}

/// The literal child wins the tie-break: whenever the literal branch for
/// the first segment resolves, the lookup returns its result and no
/// parameter child is consulted.
pub proof fn lemma_literal_over_param<H>(
    t: RouteTree<H>,
    segs: Seq<Seq<char>>,
    p: (H, Seq<(Seq<char>, Seq<char>)>),
)
    requires
        segs.len() > 0,
        node_index(t.children@, segs[0]) >= 0,
        spec_find(t.children@[node_index(t.children@, segs[0])].1, segs.drop_first()) == Some(p),
    ensures
        spec_find(t, segs) == Some(p),
{
}

/// Looking up any path that matches a template registered into an empty
/// trie finds the handler, binding each parameter segment's name to the
/// corresponding path segment.
pub proof fn lemma_add_template_found<H>(
    uri: Seq<char>,
    h: H,
    t1: RouteTree<H>,
    path_segs: Seq<Seq<char>>,
)
    requires
        add_rel(
            Seq::<(String, RouteTree<H>)>::empty(),
            Seq::<(String, RouteTree<H>)>::empty(),
            Option::<H>::None,
            uri,
            h,
            t1,
        ),
        matches_template(uri, path_segs),
    ensures
        spec_find(t1, path_segs) == Some((h, template_bindings(uri, path_segs))),
    decreases uri.len(),
{
    if uri == "/"@ {
    } else {
        let (seg, rest) = split_first_segment(uri);
        lemma_split_shrinks(uri);
        let p0 = path_segs[0];
        let prest = path_segs.drop_first();
        if is_param_seg(seg) {
            let ps1 = t1.param_children@;
            assert(t1.children@.len() == 0);
            assert(node_index(t1.children@, p0) == -1);
            assert(ps1.len() == 1);
            let child = ps1[0].1;
            assert(ps1[0].0@ == seg);
            if rest.len() == 0 {
                assert(prest.len() == 0);
                assert(spec_find(child, prest) == Some((
                    h,
                    Seq::<(Seq<char>, Seq<char>)>::empty(),
                )));
                assert(spec_find_params(ps1, p0, prest) == Some((
                    h,
                    Seq::<(Seq<char>, Seq<char>)>::empty().push((param_name(seg), p0)),
                )));
                assert(template_bindings(uri, path_segs) =~= Seq::<
                    (Seq<char>, Seq<char>),
                >::empty().push((param_name(seg), p0)));
            } else {
                lemma_add_template_found(rest, h, child, prest);
            }
        } else {
            let cs1 = t1.children@;
            assert(t1.param_children@.len() == 0);
            assert(cs1.len() == 1);
            assert(cs1[0].0@ == seg);
            assert(p0 == seg);
            assert(node_index(cs1, p0) == 0);
            let child = cs1[0].1;
            if rest.len() == 0 {
                assert(prest.len() == 0);
                assert(spec_find(child, prest) == Some((
                    h,
                    Seq::<(Seq<char>, Seq<char>)>::empty(),
                )));
            } else {
                lemma_add_template_found(rest, h, child, prest);
            }
        }
    }
}


/// What `mime_guess` derives from a path: a function of the path's text
/// (its extension) alone.
pub uninterp spec fn mime_of(path: Seq<char>) -> Seq<char>;

/// Relies on `mime_guess::from_path` and `MimeGuess::first_or_text_plain`:
/// the guess is a fixed-table lookup on the path's extension, so the
/// result depends on the path alone, and the `text/plain` fallback means
/// the rendered type is never empty.
#[verifier::external_body]
fn mime_for_path(path: &str) -> (r: String)
    ensures
        r@ == mime_of(path@),
        r@.len() > 0,
{
    mime_guess::from_path(path).first_or_text_plain().to_string()
}

/// `s` with a `/` put in front unless one is already there.
pub open spec fn with_leading_slash(s: Seq<char>) -> Seq<char> {
    if s.len() > 0 && s[0] == '/' {
        s
    } else {
        "/"@ + s
    }
}

/// Whether `u` begins with the prefix `p`.
pub open spec fn spec_starts_with(u: Seq<char>, p: Seq<char>) -> bool {
    p.len() <= u.len() && u.take(p.len() as int) == p
}

/// The filesystem name a static route resolves a request path to: a `.`
/// before the mounted directory, then a `/`, then the path after the
/// prefix.
pub open spec fn candidate_name(dir: Seq<char>, u: Seq<char>, p: Seq<char>) -> Seq<char> {
    "."@ + dir + "/"@ + u.skip(p.len() as int)
}

/// The filesystem names the static-route table offers for `u`, one for
/// each route whose prefix begins `u`, in table order.
pub open spec fn spec_candidates(pairs: Seq<(Seq<char>, Seq<char>)>, u: Seq<char>) -> Seq<
    Seq<char>,
>
    decreases pairs.len(),
{
    if pairs.len() == 0 {
        Seq::empty()
    } else {
        let pre = spec_candidates(pairs.drop_last(), u);
        if spec_starts_with(u, pairs.last().0) {
            pre.push(candidate_name(pairs.last().1, u, pairs.last().0))
        } else {
            pre
        }
    }
}

/// The nonempty segments of a split path, in order.
pub open spec fn keep_nonempty(parts: Seq<Seq<char>>) -> Seq<Seq<char>>
    decreases parts.len(),
{
    if parts.len() == 0 {
        Seq::empty()
    } else if parts.last().len() > 0 {
        keep_nonempty(parts.drop_last()).push(parts.last())
    } else {
        keep_nonempty(parts.drop_last())
    }
}

/// The segments a request path is looked up by: split on `/`, empty
/// segments discarded (so trailing slashes are tolerated).
pub open spec fn lookup_segments(u: Seq<char>) -> Seq<Seq<char>> {
    keep_nonempty(crate::text::spec_split(u, '/'))
}

/// One routing trie per HTTP method, and the static-route table mapping
/// request-path prefixes to filesystem directories.
pub struct Router<H> {
    get_tree: RouteTree<H>,
    post_tree: RouteTree<H>,
    patch_tree: RouteTree<H>,
    put_tree: RouteTree<H>,
    delete_tree: RouteTree<H>,
    options_tree: RouteTree<H>,
    static_routes: StringMap<String>,
}

/// What registering a route changes: the method's trie per [`add_rel`],
/// and nothing else.
pub open spec fn route_added<H>(
    r0: Router<H>,
    r1: Router<H>,
    m: HttpMethod,
    uri: Seq<char>,
    h: H,
) -> bool {
    &&& add_rel(
        r0.spec_tree(m).children@,
        r0.spec_tree(m).param_children@,
        r0.spec_tree(m).handler,
        uri,
        h,
        r1.spec_tree(m),
    )
    &&& forall|m2: HttpMethod| m2 != m ==> r1.spec_tree(m2) == r0.spec_tree(m2)
    &&& r1.spec_statics() == r0.spec_statics()
}

impl<H> Default for Router<H> {
    /// The same empty router [`Router::new`] builds.
    fn default() -> (r: Self)
        ensures
            forall|m: HttpMethod| is_empty_node(#[trigger] r.spec_tree(m)),
            r.spec_statics() == Seq::<(Seq<char>, Seq<char>)>::empty(),
    {
        Self::new()
    }
}

impl<H> Router<H> {
    /// The routing trie serving the method `m`.
    pub closed spec fn spec_tree(&self, m: HttpMethod) -> RouteTree<H> {
        match m {
            HttpMethod::Get => self.get_tree,
            HttpMethod::Post => self.post_tree,
            HttpMethod::Patch => self.patch_tree,
            HttpMethod::Put => self.put_tree,
            HttpMethod::Delete => self.delete_tree,
            HttpMethod::Options => self.options_tree,
        }
    }

    /// The static-route table, prefix to directory, in insertion order.
    pub closed spec fn spec_statics(&self) -> Seq<(Seq<char>, Seq<char>)> {
        crate::strmap::viewed_pairs(self.static_routes@)
    }

    /// A router with an empty trie for every method and no static routes.
    pub fn new() -> (r: Self)
        ensures
            forall|m: HttpMethod| is_empty_node(#[trigger] r.spec_tree(m)),
            r.spec_statics() == Seq::<(Seq<char>, Seq<char>)>::empty(),
    {
        let r = Router {
            get_tree: RouteTree::new(),
            post_tree: RouteTree::new(),
            patch_tree: RouteTree::new(),
            put_tree: RouteTree::new(),
            delete_tree: RouteTree::new(),
            options_tree: RouteTree::new(),
            static_routes: StringMap::new(),
        };
        proof {
            assert(r.spec_statics() =~= Seq::<(Seq<char>, Seq<char>)>::empty());
        }
        r
    }

    /// Registers a `GET` route.
    pub fn r_get(&mut self, uri: &str, handler: H)
        ensures
            route_added(*old(self), *final(self), HttpMethod::Get, uri@, handler),
    {
        self.get_tree.add(uri.to_owned(), handler);
    }

    /// Registers a `POST` route.
    pub fn r_post(&mut self, uri: &str, handler: H)
        ensures
            route_added(*old(self), *final(self), HttpMethod::Post, uri@, handler),
    {
        self.post_tree.add(uri.to_owned(), handler);
    }

    /// Registers a `PATCH` route.
    pub fn r_patch(&mut self, uri: &str, handler: H)
        ensures
            route_added(*old(self), *final(self), HttpMethod::Patch, uri@, handler),
    {
        self.patch_tree.add(uri.to_owned(), handler);
    }

    /// Registers a `PUT` route.
    pub fn r_put(&mut self, uri: &str, handler: H)
        ensures
            route_added(*old(self), *final(self), HttpMethod::Put, uri@, handler),
    {
        self.put_tree.add(uri.to_owned(), handler);
    }

    /// Registers a `DELETE` route.
    pub fn r_delete(&mut self, uri: &str, handler: H)
        ensures
            route_added(*old(self), *final(self), HttpMethod::Delete, uri@, handler),
    {
        self.delete_tree.add(uri.to_owned(), handler);
    }

    /// Registers an `OPTIONS` route.
    pub fn r_options(&mut self, uri: &str, handler: H)
        ensures
            route_added(*old(self), *final(self), HttpMethod::Options, uri@, handler),
    {
        self.options_tree.add(uri.to_owned(), handler);
    }

    /// Registers a `GET` route, builder style.
    pub fn get(self, uri: &str, handler: H) -> (r: Self)
        ensures
            route_added(self, r, HttpMethod::Get, uri@, handler),
    {
        let mut s = self;
        s.r_get(uri, handler);
        s
    }

    /// Registers a `POST` route, builder style.
    pub fn post(self, uri: &str, handler: H) -> (r: Self)
        ensures
            route_added(self, r, HttpMethod::Post, uri@, handler),
    {
        let mut s = self;
        s.r_post(uri, handler);
        s
    }

    /// Registers a `PATCH` route, builder style.
    pub fn patch(self, uri: &str, handler: H) -> (r: Self)
        ensures
            route_added(self, r, HttpMethod::Patch, uri@, handler),
    {
        let mut s = self;
        s.r_patch(uri, handler);
        s
    }

    /// Registers a `PUT` route, builder style.
    pub fn put(self, uri: &str, handler: H) -> (r: Self)
        ensures
            route_added(self, r, HttpMethod::Put, uri@, handler),
    {
        let mut s = self;
        s.r_put(uri, handler);
        s
    }

    /// Registers a `DELETE` route, builder style.
    pub fn delete(self, uri: &str, handler: H) -> (r: Self)
        ensures
            route_added(self, r, HttpMethod::Delete, uri@, handler),
    {
        let mut s = self;
        s.r_delete(uri, handler);
        s
    }

    /// Registers an `OPTIONS` route, builder style.
    pub fn options(self, uri: &str, handler: H) -> (r: Self)
        ensures
            route_added(self, r, HttpMethod::Options, uri@, handler),
    {
        let mut s = self;
        s.r_options(uri, handler);
        s
    }

    /// Mounts a directory under a request-path prefix, builder style; both
    /// are given a leading `/` when they lack one.
    pub fn serve_dir(self, uri: &str, dir: &str) -> (r: Self)
        ensures
            r.spec_statics() == bind(
                self.spec_statics(),
                with_leading_slash(uri@),
                with_leading_slash(dir@),
            ),
            forall|m: HttpMethod| #[trigger] r.spec_tree(m) == self.spec_tree(m),
    {
        let mut s = self;
        let key = if uri.unicode_len() > 0 && uri.get_char(0) == '/' {
            uri.to_owned()
        } else {
            String::from_str("/").concat(uri)
        };
        let val = if dir.unicode_len() > 0 && dir.get_char(0) == '/' {
            dir.to_owned()
        } else {
            String::from_str("/").concat(dir)
        };
        let ghost gk = key;
        let ghost gv = val;
        let ghost st = s.static_routes@;
        s.static_routes.insert(key, val);
        proof {
            crate::strmap::lemma_bind_viewed(st, gk@, gv);
        }
        s
    }

    /// Mounts a directory under a request-path prefix, as given.
    pub fn r_serve_dir(&mut self, uri: &str, dir: &str)
        ensures
            final(self).spec_statics() == bind(old(self).spec_statics(), uri@, dir@),
            forall|m: HttpMethod| #[trigger] final(self).spec_tree(m) == old(self).spec_tree(m),
    {
        let val = dir.to_owned();
        let ghost gv = val;
        let ghost st = self.static_routes@;
        self.static_routes.insert(uri.to_owned(), val);
        proof {
            crate::strmap::lemma_bind_viewed(st, uri@, gv);
        }
    }

    /// Resolves a request path in the method's trie: the path is split on
    /// `/` with empty segments discarded, and the result and parameter
    /// bindings are those of [`spec_find`].
    #[verifier::loop_isolation(false)]
    pub fn find_route<'a>(
        &'a self,
        method: HttpMethod,
        uri: &str,
        params: &mut StringMap<String>,
    ) -> (r: Option<&'a H>)
        ensures
            match spec_find(self.spec_tree(method), lookup_segments(uri@)) {
                Some(p) => {
                    &&& r is Some
                    &&& *r->Some_0 == p.0
                    &&& crate::strmap::viewed_pairs(final(params)@) == apply_bindings(
                        crate::strmap::viewed_pairs(old(params)@),
                        p.1,
                    )
                },
                None => r is None && final(params)@ == old(params)@,
            },
    {
        let parts = crate::text::split_str(uri, '/');
        let n = parts.len();
        let mut segments: Vec<String> = Vec::new();
        let mut i: usize = 0;
        while i < n
            invariant
                0 <= i <= n,
                views_of(segments@) == keep_nonempty(views_of(parts@).take(i as int)),
            decreases n - i,
        {
            proof {
                assert(views_of(parts@).take(i + 1 as int).drop_last() =~= views_of(
                    parts@,
                ).take(i as int));
            }
            if parts[i].as_str().unicode_len() > 0 {
                let p = parts[i].clone();
                segments.push(p);
                proof {
                    assert(views_of(segments@) =~= keep_nonempty(
                        views_of(parts@).take(i + 1 as int),
                    ));
                }
            }
            i = i + 1;
        }
        proof {
            assert(views_of(parts@).take(n as int) =~= views_of(parts@));
        }
        match method {
            HttpMethod::Get => self.get_tree.find_match(&segments, params),
            HttpMethod::Post => self.post_tree.find_match(&segments, params),
            HttpMethod::Patch => self.patch_tree.find_match(&segments, params),
            HttpMethod::Put => self.put_tree.find_match(&segments, params),
            HttpMethod::Delete => self.delete_tree.find_match(&segments, params),
            HttpMethod::Options => self.options_tree.find_match(&segments, params),
        }
    }

    /// The filesystem names the static-route table offers for a request
    /// path, in table order, each with the content type its extension
    /// suggests.
    #[verifier::loop_isolation(false)]
    pub fn static_candidates(&self, uri: &str) -> (r: Vec<(String, String)>)
        ensures
            ({
                let names = spec_candidates(self.spec_statics(), uri@);
                &&& r@.len() == names.len()
                &&& forall|i: int|
                    0 <= i < names.len() ==> (#[trigger] r@[i]).0@ == names[i] && r@[i].1@
                        == mime_of(names[i])
            }),
    {
        let un = uri.unicode_len();
        let n = self.static_routes.len();
        let mut r: Vec<(String, String)> = Vec::new();
        let mut i: usize = 0;
        while i < n
            invariant
                0 <= i <= n,
                ({
                    let names = spec_candidates(self.spec_statics().take(i as int), uri@);
                    &&& r@.len() == names.len()
                    &&& forall|j: int|
                        0 <= j < names.len() ==> (#[trigger] r@[j]).0@ == names[j] && r@[j].1@
                            == mime_of(names[j])
                }),
            decreases n - i,
        {
            let (prefix, dir) = self.static_routes.pair_at(i);
            let pn = prefix.as_str().unicode_len();
            proof {
                assert(self.spec_statics().take(i + 1 as int).drop_last() =~= self.spec_statics(
                ).take(i as int));
            }
            if pn <= un && str_eq(uri.substring_char(0, pn), prefix.as_str()) {
                let mut name = String::from_str(".");
                name.append(dir.as_str());
                name.append("/");
                name.append(uri.substring_char(pn, un));
                let mime = mime_for_path(name.as_str());
                let ghost gname = name;
                let ghost gmime = mime;
                r.push((name, mime));
                proof {
                    assert(uri@.subrange(0, pn as int) =~= uri@.take(pn as int));
                    assert(gname@ =~= candidate_name(
                        self.spec_statics()[i as int].1,
                        uri@,
                        self.spec_statics()[i as int].0,
                    ));
                }
            } else {
                proof {
                    assert(uri@.subrange(0, pn as int) =~= uri@.take(pn as int));
                }
            }
            i = i + 1;
        }
        proof {
            assert(self.spec_statics().take(n as int) =~= self.spec_statics());
        }
        r
    }
}


/// What dropping empty parts makes of a one-part split.
proof fn lemma_keep_single(x: Seq<char>)
    ensures
        keep_nonempty(seq![x]) == if x.len() > 0 {
            seq![x]
        } else {
            Seq::<Seq<char>>::empty()
        },
{
    assert(seq![x].len() == 1);
    assert(seq![x].last() == x);
    assert(seq![x].drop_last() =~= Seq::<Seq<char>>::empty());
    assert(keep_nonempty(seq![x].drop_last()) == Seq::<Seq<char>>::empty());
    if x.len() > 0 {
        assert(keep_nonempty(seq![x]) == keep_nonempty(seq![x].drop_last()).push(x));
        assert(Seq::<Seq<char>>::empty().push(x) =~= seq![x]);
    }
}

/// Splitting off nonempty leading segments one at a time agrees with
/// splitting on `/` and dropping the empty parts.
pub proof fn lemma_keep_nonempty_prepend(x: Seq<char>, parts: Seq<Seq<char>>)
    ensures
        keep_nonempty(seq![x] + parts) == if x.len() > 0 {
            seq![x] + keep_nonempty(parts)
        } else {
            keep_nonempty(parts)
        },
    decreases parts.len(),
{
    if parts.len() == 0 {
        assert(seq![x] + parts =~= seq![x]);
        lemma_keep_single(x);
        if x.len() > 0 {
            assert(seq![x] + keep_nonempty(parts) =~= seq![x]);
        }
    } else {
        assert((seq![x] + parts).drop_last() =~= seq![x] + parts.drop_last());
        assert((seq![x] + parts).last() == parts.last());
        lemma_keep_nonempty_prepend(x, parts.drop_last());
        if x.len() > 0 {
            if parts.last().len() > 0 {
                assert(seq![x] + keep_nonempty(parts) =~= (seq![x] + keep_nonempty(
                    parts.drop_last(),
                )).push(parts.last()));
            }
        }
    }
}

/// For a path whose registration segments are all nonempty, the segments
/// a request lookup uses are exactly the registration segments.
pub proof fn lemma_reg_and_lookup_segments_agree(uri: Seq<char>)
    requires
        forall|i: int|
            0 <= i < reg_segments(uri).len() ==> (#[trigger] reg_segments(uri)[i]).len() > 0,
    ensures
        lookup_segments(uri) == reg_segments(uri),
    decreases uri.len(),
{
    crate::text::lemma_first_index(uri, '/');
    if uri == "/"@ {
        reveal_strlit("/");
        assert(uri.len() == 1 && uri[0] == '/');
        assert(first_index(uri, '/') == 0);
        assert(uri.skip(1) =~= Seq::<char>::empty());
        assert(crate::text::spec_split(uri, '/') == seq![uri.take(0)] + crate::text::spec_split(
            Seq::<char>::empty(),
            '/',
        ));
        assert(crate::text::spec_split(Seq::<char>::empty(), '/') == seq![Seq::<char>::empty()]);
        lemma_keep_nonempty_prepend(uri.take(0), seq![Seq::<char>::empty()]);
        lemma_keep_single(Seq::<char>::empty());
        assert(lookup_segments(uri) =~= Seq::<Seq<char>>::empty());
        assert(reg_segments(uri) =~= Seq::<Seq<char>>::empty());
    } else {
        let (seg, rest) = split_first_segment(uri);
        lemma_split_shrinks(uri);
        let stripped = if uri.len() > 0 && uri[0] == '/' {
            uri.drop_first()
        } else {
            uri
        };
        crate::text::lemma_first_index(stripped, '/');
        let j = first_index(stripped, '/');
        // Splitting the whole path equals splitting the stripped path,
        // with one extra empty part for a leading slash.
        if uri.len() > 0 && uri[0] == '/' {
            assert(first_index(uri, '/') == 0);
            assert(uri.skip(1) =~= stripped);
            assert(crate::text::spec_split(uri, '/') == seq![uri.take(0)]
                + crate::text::spec_split(stripped, '/'));
            assert(uri.take(0).len() == 0);
            lemma_keep_nonempty_prepend(uri.take(0), crate::text::spec_split(stripped, '/'));
            assert(lookup_segments(uri) == keep_nonempty(crate::text::spec_split(stripped, '/')));
        } else {
            assert(crate::text::spec_split(uri, '/') == crate::text::spec_split(stripped, '/'));
        }
        if j < 0 {
            // One terminal segment.
            assert(rest.len() == 0);
            assert(seg == stripped);
            assert(crate::text::spec_split(stripped, '/') == seq![seg]);
            assert(reg_segments(uri) =~= seq![seg]);
            assert(reg_segments(uri)[0].len() > 0);
            lemma_keep_single(seg);
        } else {
            assert(seg == stripped.take(j));
            assert(rest == stripped.skip(j + 1));
            assert(crate::text::spec_split(stripped, '/') == seq![seg]
                + crate::text::spec_split(rest, '/'));
            lemma_keep_nonempty_prepend(seg, crate::text::spec_split(rest, '/'));
            if rest.len() == 0 {
                assert(reg_segments(uri) =~= seq![seg]);
                assert(reg_segments(uri)[0].len() > 0);
                assert(first_index(rest, '/') == -1);
                assert(crate::text::spec_split(rest, '/') == seq![rest]);
                lemma_keep_single(rest);
                assert(keep_nonempty(crate::text::spec_split(stripped, '/')) =~= seq![seg]);
                assert(lookup_segments(uri) =~= seq![seg]);
            } else {
                assert(reg_segments(uri) == seq![seg] + reg_segments(rest));
                assert forall|i: int|
                    0 <= i < reg_segments(rest).len() implies (#[trigger] reg_segments(
                    rest,
                )[i]).len() > 0 by {
                    assert(reg_segments(uri)[i + 1] == reg_segments(rest)[i]);
                }
                lemma_reg_and_lookup_segments_agree(rest);
                assert(reg_segments(uri)[0] == seg);
                assert(seg.len() > 0);
                assert(lookup_segments(uri) =~= seq![seg] + lookup_segments(rest));
            }
        }
    }
}

/// Looking up a registered literal path by its own text finds the handler
/// just bound there, with no parameter bindings: the request segments are
/// the registration segments, and the registration put the handler at
/// their end.
pub proof fn lemma_registered_path_resolves<H>(
    cs0: Seq<(String, RouteTree<H>)>,
    ps0: Seq<(String, RouteTree<H>)>,
    h0: Option<H>,
    uri: Seq<char>,
    h: H,
    t1: RouteTree<H>,
)
    requires
        add_rel(cs0, ps0, h0, uri, h, t1),
        literal_path(uri),
        forall|i: int|
            0 <= i < reg_segments(uri).len() ==> (#[trigger] reg_segments(uri)[i]).len() > 0,
    ensures
        spec_find(t1, lookup_segments(uri)) == Some((h, Seq::<(Seq<char>, Seq<char>)>::empty())),
{
    lemma_reg_and_lookup_segments_agree(uri);
    lemma_add_literal_found(cs0, ps0, h0, uri, h, t1);
}


/// Registering a literal path on a router makes a request for exactly
/// that path resolve to the handler just bound, with no parameter
/// bindings -- whatever routes the router held before.
pub proof fn lemma_router_literal_route<H>(
    r0: Router<H>,
    r1: Router<H>,
    m: HttpMethod,
    uri: Seq<char>,
    h: H,
)
    requires
        route_added(r0, r1, m, uri, h),
        literal_path(uri),
        forall|i: int|
            0 <= i < reg_segments(uri).len() ==> (#[trigger] reg_segments(uri)[i]).len() > 0,
    ensures
        spec_find(r1.spec_tree(m), lookup_segments(uri)) == Some(
            (h, Seq::<(Seq<char>, Seq<char>)>::empty()),
        ),
{
    lemma_registered_path_resolves(
        r0.spec_tree(m).children@,
        r0.spec_tree(m).param_children@,
        r0.spec_tree(m).handler,
        uri,
        h,
        r1.spec_tree(m),
    );
}

/// Registering a template on a method with no routes yet makes every
/// matching path resolve to the handler, binding each parameter segment's
/// name to the corresponding path segment.
pub proof fn lemma_router_template_route<H>(
    r0: Router<H>,
    r1: Router<H>,
    m: HttpMethod,
    uri: Seq<char>,
    h: H,
    path_segs: Seq<Seq<char>>,
)
    requires
        is_empty_node(r0.spec_tree(m)),
        route_added(r0, r1, m, uri, h),
        matches_template(uri, path_segs),
    ensures
        spec_find(r1.spec_tree(m), path_segs) == Some((h, template_bindings(uri, path_segs))),
{
    assert(r0.spec_tree(m).children@ =~= Seq::<(String, RouteTree<H>)>::empty());
    assert(r0.spec_tree(m).param_children@ =~= Seq::<(String, RouteTree<H>)>::empty());
    lemma_add_template_found(uri, h, r1.spec_tree(m), path_segs);
}

} // verus!
