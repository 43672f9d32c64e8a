//! The `tree` field-selection mini-language: a recursive tree of keys
//! restricting which fields a query response includes, a fluent builder
//! for it, and its serialization to the wire string the server expects.

use vstd::prelude::*;
use vstd::string::*;

verus! {

/// A field-selection tree query parameter: an optional key with an
/// ordered list of children. Children order is render-significant;
/// sibling key uniqueness is the caller's responsibility.
#[derive(Debug)]
pub struct TreeQueryParam {
    /// Name of the key at the root of this tree
    keyname: Option<String>,
    /// Children keys
    subkeys: Vec<TreeQueryParam>,
}

/// The mathematical model of a [`TreeQueryParam`].
pub struct TreeView {
    /// Model of the optional root key
    pub keyname: Option<Seq<char>>,
    /// Models of the children, in order
    pub subkeys: Seq<TreeView>,
}

broadcast use vstd::std_specs::vec::axiom_vec_decreases_to_view;

/// The model of a tree query value.
pub closed spec fn tree_view(t: &TreeQueryParam) -> TreeView
    decreases t, 1int,
{
    TreeView {
        keyname: match &t.keyname {
            Option::Some(k) => Option::Some(k@),
            Option::None => Option::None,
        },
        subkeys: forest_view(t.subkeys@),
    }
}

/// The models of a sequence of trees, in order.
pub closed spec fn forest_view(ts: Seq<TreeQueryParam>) -> Seq<TreeView>
    decreases ts, 0int,
{
    if ts.len() == 0 {
        Seq::empty()
    } else {
        seq![tree_view(&ts[0])] + forest_view(ts.drop_first())
    }
}

/// The model sequence has one entry per tree: the model of that tree.
proof fn lemma_forest_view_index(ts: Seq<TreeQueryParam>)
    ensures
        forest_view(ts).len() == ts.len(),
        forall|k: int| 0 <= k < ts.len() ==> forest_view(ts)[k] == #[trigger] ts[k]@,
    decreases ts.len(),
{
    if ts.len() > 0 {
        lemma_forest_view_index(ts.drop_first());
        assert forall|k: int| 0 <= k < ts.len() implies forest_view(ts)[k] == #[trigger] ts[k]@ by {
            if k == 0 {
                assert(forest_view(ts)[0] == tree_view(&ts[0]));
            } else {
                assert(forest_view(ts)[k] == forest_view(ts.drop_first())[k - 1]);
                assert(ts.drop_first()[k - 1] == ts[k]);
            }
        }
    }
}

impl View for TreeQueryParam {
    type V = TreeView;

    closed spec fn view(&self) -> TreeView {
        tree_view(self)
    }
}

/// The wire form of a tree: a keyed leaf is its key, a keyed node is
/// `key[children]`, and a keyless root is its children without brackets.
pub open spec fn rendered_tree(t: TreeView) -> Seq<char>
    decreases t, 1int,
{
    match t.keyname {
        Option::Some(k) => if t.subkeys.len() == 0 {
            k
        } else {
            k + seq!['['] + rendered_forest(t.subkeys) + seq![']']
        },
        Option::None => rendered_forest(t.subkeys),
    }
}

/// The comma-joined wire form of a list of sibling trees.
pub open spec fn rendered_forest(ts: Seq<TreeView>) -> Seq<char>
    decreases ts, 0int,
{
    if ts.len() == 0 {
        Seq::empty()
    } else if ts.len() == 1 {
        rendered_tree(ts[0])
    } else {
        rendered_tree(ts[0]) + seq![','] + rendered_forest(ts.drop_first())
    }
}

/// Appending a sibling extends the joined form at the end, with a comma
/// when siblings already exist.
proof fn lemma_rendered_forest_push(ts: Seq<TreeView>, t: TreeView)
    ensures
        rendered_forest(ts.push(t)) == if ts.len() == 0 {
            rendered_tree(t)
        } else {
            rendered_forest(ts) + seq![','] + rendered_forest(seq![t])
        },
    decreases ts.len(),
{
    if ts.len() == 0 {
        assert(ts.push(t) =~= seq![t]);
        assert(rendered_forest(seq![t]) == rendered_tree(t));
    } else {
        let p = ts.push(t);
        assert(p.len() >= 2);
        assert(p[0] == ts[0]);
        assert(p.drop_first() =~= ts.drop_first().push(t));
        lemma_rendered_forest_push(ts.drop_first(), t);
        if ts.len() == 1 {
            assert(ts.drop_first().len() == 0);
            assert(rendered_forest(p) == rendered_tree(ts[0]) + seq![','] + rendered_tree(t));
            assert(rendered_forest(ts) == rendered_tree(ts[0]));
            assert(rendered_forest(seq![t]) == rendered_tree(t));
        } else {
            assert(rendered_forest(p) == rendered_tree(ts[0]) + seq![','] + rendered_forest(
                ts.drop_first().push(t),
            ));
            assert(rendered_forest(ts) == rendered_tree(ts[0]) + seq![','] + rendered_forest(
                ts.drop_first(),
            ));
            assert(rendered_forest(p) =~= rendered_forest(ts) + seq![','] + rendered_forest(
                seq![t],
            ));
        }
    }
}

/// Appends the comma-joined wire form of `ts` to `out`.
fn append_forest(out: &mut String, ts: &Vec<TreeQueryParam>)
    ensures
        final(out)@ == old(out)@ + rendered_forest(forest_view(ts@)),
    decreases ts@, 0int,
{
    let ghost views = forest_view(ts@);
    proof {
        lemma_forest_view_index(ts@);
    }
    let mut i: usize = 0;
    while i < ts.len()
        invariant
            i <= ts.len(),
            views == forest_view(ts@),
            views.len() == ts@.len(),
            forall|k: int| 0 <= k < ts@.len() ==> views[k] == #[trigger] ts@[k]@,
            out@ == old(out)@ + rendered_forest(views.subrange(0, i as int)),
        decreases ts@.len() - i,
    {
        if i > 0 {
            out.append(",");
        }
        let piece = ts[i].to_string();
        out.append(piece.as_str());
        proof {
            reveal_strlit(",");
            let pre = views.subrange(0, i as int);
            assert(views.subrange(0, i + 1 as int) =~= pre.push(views[i as int]));
            lemma_rendered_forest_push(pre, views[i as int]);
            assert(rendered_forest(seq![views[i as int]]) == rendered_tree(views[i as int]));
            assert(","@ =~= seq![',']);
        }
        i = i + 1;
    }
    proof {
        assert(views.subrange(0, ts@.len() as int) =~= views);
    }
}

impl TreeQueryParam {
    /// Serializes the tree to the wire string the server expects.
    /// The rendering is stable: it is a function of the tree alone.
    pub fn to_string(&self) -> (r: String)
        ensures
            r@ == rendered_tree(self@),
        decreases self, 1int,
    {
        let mut out = String::new();
        match &self.keyname {
            Option::Some(k) => {
                out.append(k.as_str());
                if self.subkeys.len() > 0 {
                    out.append("[");
                    append_forest(&mut out, &self.subkeys);
                    out.append("]");
                    proof {
                        reveal_strlit("[");
                        reveal_strlit("]");
                        lemma_forest_view_index(self.subkeys@);
                        assert(out@ =~= rendered_tree(self@));
                    }
                } else {
                    proof {
                        assert(self@.subkeys.len() == 0);
                        assert(out@ =~= rendered_tree(self@));
                    }
                }
            },
            Option::None => {
                append_forest(&mut out, &self.subkeys);
                proof {
                    assert(out@ =~= rendered_tree(self@));
                }
            },
        }
        out
    }
}

/// Helper to build a [`TreeQueryParam`], starting from a keyed object or
/// an empty root and appending children one by one.
#[derive(Debug)]
pub struct TreeBuilder {
    tree: TreeQueryParam,
}

impl View for TreeBuilder {
    type V = TreeView;

    closed spec fn view(&self) -> TreeView {
        self.tree@
    }
}

impl TreeBuilder {
    /// Build a new empty `TreeBuilder`
    pub fn new() -> (r: Self)
        ensures
            r@.keyname is None,
            r@.subkeys == Seq::<TreeView>::empty(),
    {
        let r = TreeBuilder { tree: TreeQueryParam { keyname: Option::None, subkeys: Vec::new() } };
        proof {
            assert(r@.subkeys =~= Seq::<TreeView>::empty());
        }
        r
    }

    /// Create a parent `TreeQueryParam`
    pub fn object(name: &str) -> (r: Self)
        ensures
            r@.keyname == Option::Some(name@),
            r@.subkeys == Seq::<TreeView>::empty(),
    {
        let r = TreeBuilder {
            tree: TreeQueryParam { keyname: Option::Some(name.to_owned()), subkeys: Vec::new() },
        };
        proof {
            assert(r@.subkeys =~= Seq::<TreeView>::empty());
        }
        r
    }

    /// Add a field to the `TreeQueryParam`
    pub fn with_field(self, subfield: TreeQueryParam) -> (r: Self)
        ensures
            r@.keyname == self@.keyname,
            r@.subkeys == self@.subkeys.push(subfield@),
    {
        let TreeBuilder { tree } = self;
        let TreeQueryParam { keyname, mut subkeys } = tree;
        let ghost olds = subkeys@;
        let ghost old_subkeys = forest_view(subkeys@);
        let ghost sub_view = subfield@;
        proof {
            lemma_forest_view_index(olds);
        }
        subkeys.push(subfield);
        let ghost news = subkeys@;
        let r = TreeBuilder { tree: TreeQueryParam { keyname, subkeys } };
        proof {
            lemma_forest_view_index(news);
            assert(news[olds.len() as int]@ == sub_view);
            assert forall|k: int|
                0 <= k < old_subkeys.len() implies forest_view(news)[k] == #[trigger] old_subkeys[k] by {
                assert(news[k] == olds[k]);
                assert(forest_view(news)[k] == news[k]@);
                assert(forest_view(olds)[k] == olds[k]@);
            }
            assert(r@.subkeys =~= old_subkeys.push(sub_view));
        }
        r
    }

    /// Add a subfield to the `TreeQueryParam`
    pub fn with_subfield(self, subfield: TreeQueryParam) -> (r: Self)
        ensures
            r@.keyname == self@.keyname,
            r@.subkeys == self@.subkeys.push(subfield@),
    {
        self.with_field(subfield)
    }

    /// Build the `TreeQueryParam`
    pub fn build(self) -> (r: TreeQueryParam)
        ensures
            r@ == self@,
    {
        let TreeBuilder { tree } = self;
        tree
    }
}

impl Default for TreeBuilder {
    /// The default builder is the empty keyless root.
    fn default() -> (r: Self)
        ensures
            r@.keyname is None,
            r@.subkeys == Seq::<TreeView>::empty(),
    {
        Self::new()
    }
}

impl From<TreeBuilder> for TreeQueryParam {
    /// Finishing a builder and wrapping it are the same thing.
    fn from(val: TreeBuilder) -> (r: Self) {
        let TreeBuilder { tree } = val;
        tree
    }
}

impl vstd::std_specs::convert::FromSpecImpl<TreeBuilder> for TreeQueryParam {
    open spec fn obeys_from_spec() -> bool {
        true
    }

    closed spec fn from_spec(v: TreeBuilder) -> Self {
        v.tree
    }
}

impl TreeQueryParam {
    /// A keyed leaf: the tree that renders as the bare field name.
    pub fn leaf(name: &str) -> (r: Self)
        ensures
            r@.keyname == Option::Some(name@),
            r@.subkeys == Seq::<TreeView>::empty(),
    {
        let r = TreeQueryParam { keyname: Option::Some(name.to_owned()), subkeys: Vec::new() };
        proof {
            assert(r@.subkeys =~= Seq::<TreeView>::empty());
        }
        r
    }
}

} // verus!
