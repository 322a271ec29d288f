//! The walk over the declarations of a source file that builds its outline.
use vstd::prelude::*;
use vstd::string::StrSliceExecFns;
use vstd::string::StringExecFns;
use crate::source_model::elements_view;
use crate::source_model::lemma_element_view;
use crate::source_model::ElementModel;
use crate::source_model::SourceRange;
use crate::source_model::StructureElement;
use crate::source_model::StructureElementKind;
use crate::syntax::AssocItem;
use crate::syntax::AssocItemKind;
use crate::syntax::FieldDef;
use crate::syntax::FnDecl;
use crate::syntax::FnRetTy;
use crate::syntax::ForeignItem;
use crate::syntax::ForeignItemKind;
use crate::syntax::Item;
use crate::syntax::ItemKind;
use crate::syntax::Param;
use crate::syntax::UseTree;
use crate::syntax::UseTreeKind;
use crate::syntax::Variant;
use crate::syntax::VariantData;
use crate::util::Void;

verus! {

/// Whether `s` ends with the receiver keyword `self`.
pub open spec fn ends_with_self(s: Seq<char>) -> bool {
    s.len() >= 4 && s.subrange(s.len() - 4, s.len() as int) == seq!['s', 'e', 'l', 'f']
}

/// Tells whether `s` ends with the receiver keyword `self`.
pub fn snippet_ends_with_self(s: &str) -> (r: bool)
    ensures
        r == ends_with_self(s@),
{
    let n: usize = s.unicode_len();
    if n < 4 {
        return false;
    }
    let r = s.get_char(n - 4) == 's' && s.get_char(n - 3) == 'e' && s.get_char(n - 2) == 'l'
        && s.get_char(n - 1) == 'f';
    proof {
        let tail = s@.subrange(n - 4, n as int);
        assert(tail[0] == s@[n - 4]);
        assert(tail[1] == s@[n - 3]);
        assert(tail[2] == s@[n - 2]);
        assert(tail[3] == s@[n - 1]);
        if r {
            assert(tail =~= seq!['s', 'e', 'l', 'f']);
        }
    }
    r
}

/// What one parameter adds to a signature: the snippet of its type; if that
/// is missing or empty, the snippet of its pattern, provided it ends with
/// `self`; otherwise nothing.
pub open spec fn param_text(p: Param) -> Seq<char> {
    if p.ty_snippet is Some && p.ty_snippet->0@.len() > 0 {
        p.ty_snippet->0@
    } else if p.pat_snippet is Some && ends_with_self(p.pat_snippet->0@) {
        p.pat_snippet->0@
    } else {
        Seq::empty()
    }
}

/// The texts of the parameters, joined by a comma and a space.
pub open spec fn params_text(ps: Seq<Param>) -> Seq<char>
    decreases ps.len(),
{
    if ps.len() == 0 {
        Seq::empty()
    } else if ps.len() == 1 {
        param_text(ps[0])
    } else {
        params_text(ps.drop_last()) + ", "@ + param_text(ps.last())
    }
}

/// What the return type adds to a signature: an arrow and the snippet of
/// the type, where a type is written and its snippet was found.
pub open spec fn ret_text(output: FnRetTy) -> Seq<char> {
    match output {
        FnRetTy::Ty(Some(snippet)) => " -> "@ + snippet@,
        _ => Seq::empty(),
    }
}

/// The signature of a function as a type description: the parameters in
/// parentheses, then the return type.
pub open spec fn fn_type_desc(fd: FnDecl) -> Seq<char> {
    "("@ + params_text(fd.inputs@) + ")"@ + ret_text(fd.output)
}

/// Builds the type description of a function from its declaration.
pub fn get_type_desc_from_fndecl(fd: &FnDecl) -> (type_desc: String)
    ensures
        type_desc@ == fn_type_desc(*fd),
{
    let mut type_desc = String::new();
    type_desc.push('(');
    let ghost ps = fd.inputs@;
    let mut needs_sep = false;
    let mut i: usize = 0;
    assert(type_desc@ =~= "("@ + params_text(ps.take(0))) by {
        reveal_strlit("(");
    }
    while i < fd.inputs.len()
        invariant
            i <= fd.inputs.len(),
            ps == fd.inputs@,
            needs_sep == (i > 0),
            type_desc@ == "("@ + params_text(ps.take(i as int)),
        decreases fd.inputs.len() - i,
    {
        let arg = &fd.inputs[i];
        let ghost before = type_desc@;
        if needs_sep {
            type_desc.append(", ");
        }
        needs_sep = true;
        let mut written = false;
        if let Some(snippet) = &arg.ty_snippet {
            if !snippet.as_str().is_empty() {
                type_desc.append(snippet.as_str());
                written = true;
            }
        }
        if !written {
            if let Some(snippet) = &arg.pat_snippet {
                if snippet_ends_with_self(snippet.as_str()) {
                    type_desc.append(snippet.as_str());
                }
            }
        }
        i = i + 1;
        proof {
            let front = ps.take(i as int);
            assert(front.last() == *arg);
            assert(front.drop_last() =~= ps.take(i - 1));
            if i == 1 {
                assert(params_text(ps.take(0)) =~= Seq::<char>::empty());
                assert(front[0] == *arg);
                assert(type_desc@ =~= before + param_text(*arg));
            } else {
                assert(type_desc@ =~= before + ", "@ + param_text(*arg));
            }
            assert(type_desc@ =~= "("@ + params_text(front));
        }
    }
    assert(ps.take(fd.inputs.len() as int) =~= ps);
    type_desc.append(")");
    if let FnRetTy::Ty(Some(ret_snippet)) = &fd.output {
        type_desc.append(" -> ");
        type_desc.append(ret_snippet.as_str());
    }
    assert(type_desc@ =~= fn_type_desc(*fd));
    type_desc
}

/// What a simple `use` tree shows behind its path: the new name, where one
/// is given that differs from the path's last segment.
pub open spec fn rename_suffix(last_segment: Option<String>, rename: Option<String>) -> Seq<char> {
    match (last_segment, rename) {
        (Some(last), Some(name)) => if last@ != name@ {
            " as "@ + name@
        } else {
            Seq::empty()
        },
        _ => Seq::empty(),
    }
}

/// The text of a `use` tree: `path` or `path as name` for a simple tree,
/// `path::*` for a glob, and `path::{ tree, tree, }` for a group, each tree
/// of the group by the same rule.
pub open spec fn use_tree_text(tree: UseTree) -> Seq<char>
    decreases tree,
{
    match tree.kind {
        UseTreeKind::Simple(rename) => tree.prefix@ + rename_suffix(tree.last_segment, rename),
        UseTreeKind::Glob => tree.prefix@ + "::*"@,
        UseTreeKind::Nested(trees) => tree.prefix@ + "::{ "@ + use_group_text(trees@) + "}"@,
    }
}

/// The texts of the trees of a group, each with a comma and a space behind
/// it.
pub open spec fn use_group_text(trees: Seq<UseTree>) -> Seq<char>
    decreases trees,
{
    if trees.len() == 0 {
        Seq::empty()
    } else {
        use_group_text(trees.subrange(0, trees.len() - 1)) + use_tree_text(trees[trees.len() - 1])
            + ", "@
    }
}

/// Builds the text of a `use` tree.
pub fn use_tree_to_string(tree: &UseTree) -> (use_spec: String)
    ensures
        use_spec@ == use_tree_text(*tree),
    decreases tree,
{
    let mut use_spec = String::new();
    use_spec.append(tree.prefix.as_str());
    match &tree.kind {
        UseTreeKind::Simple(rename) => {
            if let Some(last) = &tree.last_segment {
                if let Some(name) = rename {
                    let same = *last == *name;
                    if !same {
                        use_spec.append(" as ");
                        use_spec.append(name.as_str());
                    }
                }
            }
            assert(use_spec@ =~= use_tree_text(*tree));
        },
        UseTreeKind::Glob => {
            use_spec.append("::*");
            assert(use_spec@ =~= use_tree_text(*tree));
        },
        UseTreeKind::Nested(trees) => {
            use_spec.append("::{ ");
            let ghost head = use_spec@;
            let ghost ts = trees@;
            let mut i: usize = 0;
            assert(use_spec@ =~= head + use_group_text(ts.subrange(0, 0)));
            while i < trees.len()
                invariant
                    i <= trees.len(),
                    ts == trees@,
                    tree.kind == UseTreeKind::Nested(*trees),
                    use_spec@ == head + use_group_text(ts.subrange(0, i as int)),
                decreases trees.len() - i,
            {
                proof {
                    assert(decreases_to!(*tree => tree.kind));
                    assert(tree.kind->Nested_0 == *trees);
                    assert(decreases_to!(tree.kind => tree.kind->Nested_0));
                    assert(decreases_to!(*trees => trees[i as int]));
                }
                let inner = use_tree_to_string(&trees[i]);
                use_spec.append(inner.as_str());
                use_spec.append(", ");
                i = i + 1;
                proof {
                    let front = ts.subrange(0, i as int);
                    assert(front[front.len() - 1] == trees[i - 1]);
                    assert(front.subrange(0, front.len() - 1) =~= ts.subrange(0, i - 1));
                    assert(use_spec@ =~= head + use_group_text(front));
                }
            }
            assert(ts.subrange(0, trees.len() as int) =~= ts);
            use_spec.append("}");
            assert(use_spec@ =~= use_tree_text(*tree));
        },
    }
    use_spec
}

/// The text of a snippet; a missing snippet is empty.
pub open spec fn snippet_text(snippet: Option<String>) -> Seq<char> {
    match snippet {
        Some(text) => text@,
        None => Seq::empty(),
    }
}

/// An element with the given children.
pub open spec fn node(
    name: Seq<char>,
    kind: StructureElementKind,
    sourcerange: SourceRange,
    type_desc: Seq<char>,
    children: Seq<ElementModel>,
) -> ElementModel {
    ElementModel { name, kind, sourcerange, type_desc, children }
}

/// An element without children.
pub open spec fn leaf(
    name: Seq<char>,
    kind: StructureElementKind,
    sourcerange: SourceRange,
    type_desc: Seq<char>,
) -> ElementModel {
    node(name, kind, sourcerange, type_desc, Seq::empty())
}

/// What a `use` tree adds to an outline: one leaf named by the tree's text.
/// A simple tree whose path has no segments adds nothing.
pub open spec fn use_tree_elements(tree: UseTree) -> Seq<ElementModel> {
    if tree.kind is Simple && tree.last_segment is None {
        Seq::empty()
    } else {
        seq![leaf(use_tree_text(tree), StructureElementKind::Use, tree.range, Seq::empty())]
    }
}

/// The element of one field: a leaf of the given kind, named by
/// the field; a positional field has an empty name.
pub open spec fn field_element(field: FieldDef, kind: StructureElementKind) -> ElementModel {
    leaf(snippet_text(field.name), kind, field.range, Seq::empty())
}

/// The elements of a list of fields, one for each field, in the list's order.
pub open spec fn fields_elements(fields: Seq<FieldDef>, kind: StructureElementKind) -> Seq<
    ElementModel,
> {
    Seq::new(fields.len(), |i: int| field_element(fields[i], kind))
}

/// What a list of fields adds to an outline: one element of the given kind
/// for each named or positional field, and nothing where there is no list.
pub open spec fn variant_data_elements(data: VariantData, kind: StructureElementKind) -> Seq<
    ElementModel,
> {
    match data {
        VariantData::Struct(fields) => fields_elements(fields@, kind),
        VariantData::Tuple(fields) => fields_elements(fields@, kind),
        VariantData::Unit => Seq::empty(),
    }
}

/// What the variants of an enum add to an outline: for each variant, in
/// order, one element of kind `EnumVariant` for each of its fields.
pub open spec fn variants_elements(variants: Seq<Variant>) -> Seq<ElementModel>
    decreases variants.len(),
{
    if variants.len() == 0 {
        Seq::empty()
    } else {
        variants_elements(variants.drop_last()) + variant_data_elements(
            variants.last().data,
            StructureElementKind::EnumVariant,
        )
    }
}

/// The element of an item of a foreign block: a function with its
/// signature, a static with the snippet of its type, a type alias, or, for
/// a macro call, an opaque macro leaf.
pub open spec fn foreign_item_element(item: ForeignItem) -> ElementModel {
    match item.kind {
        ForeignItemKind::Fn(decl) => leaf(
            item.name@,
            StructureElementKind::Function,
            item.range,
            fn_type_desc(decl),
        ),
        ForeignItemKind::Static(ty) => leaf(
            item.name@,
            StructureElementKind::Var,
            item.range,
            snippet_text(ty),
        ),
        ForeignItemKind::TyAlias => leaf(
            item.name@,
            StructureElementKind::TypeAlias,
            item.range,
            Seq::empty(),
        ),
        ForeignItemKind::MacCall => leaf(
            item.name@,
            StructureElementKind::MacroDef,
            item.range,
            Seq::empty(),
        ),
    }
}

/// The elements of the items of a foreign block, in order.
pub open spec fn foreign_items_elements(items: Seq<ForeignItem>) -> Seq<ElementModel> {
    Seq::new(items.len(), |i: int| foreign_item_element(items[i]))
}

/// What the declarations inside an item add to the level below it: the
/// items of a module, a foreign block, a trait or an impl, and the fields of
/// an enum's variants. Every other item holds nothing that is walked here.
pub open spec fn inner_elements(item: Item) -> Seq<ElementModel> {
    match item.kind {
        ItemKind::Mod(items) => items_elements(items@),
        ItemKind::ForeignMod(items) => foreign_items_elements(items@),
        ItemKind::Enum(variants) => variants_elements(variants@),
        ItemKind::Trait(items) => assoc_items_elements(items@),
        ItemKind::Impl(items) => assoc_items_elements(items@),
        _ => Seq::empty(),
    }
}

/// What one item adds to the level it stands in.
///
/// - An `extern crate`, a type alias or a trait alias adds a leaf of its kind.
/// - A `use` adds the leaf of its tree.
/// - A static or a constant adds a `Var` leaf described by the snippet of
///   its type.
/// - A function adds a `Function` described by its signature; its children
///   are what the items declared in its body add.
/// - A module, a foreign block, an enum, a trait or an impl adds one element
///   whose children are what the declarations inside it add.
/// - A struct or a union adds no element of its own: it adds one element of
///   its kind for each of its fields.
/// - Inline assembly, a macro call and a macro definition add nothing.
pub open spec fn item_elements(item: Item) -> Seq<ElementModel>
    decreases item,
{
    let none = Seq::<char>::empty();
    match item.kind {
        ItemKind::ExternCrate => seq![
            leaf(item.name@, StructureElementKind::ExternCrate, item.range, none),
        ],
        ItemKind::Use(tree) => use_tree_elements(tree),
        ItemKind::Static(ty) => seq![
            leaf(item.name@, StructureElementKind::Var, item.range, snippet_text(ty)),
        ],
        ItemKind::Const(ty) => seq![
            leaf(item.name@, StructureElementKind::Var, item.range, snippet_text(ty)),
        ],
        ItemKind::Fn(decl, body) => seq![
            node(
                item.name@,
                StructureElementKind::Function,
                item.range,
                fn_type_desc(decl),
                items_elements(body@),
            ),
        ],
        ItemKind::Mod(items) => seq![
            node(item.name@, StructureElementKind::Mod, item.range, none, items_elements(items@)),
        ],
        ItemKind::ForeignMod(items) => seq![
            node(
                item.name@,
                StructureElementKind::Mod,
                item.range,
                none,
                foreign_items_elements(items@),
            ),
        ],
        ItemKind::GlobalAsm => Seq::empty(),
        ItemKind::TyAlias => seq![
            leaf(item.name@, StructureElementKind::TypeAlias, item.range, none),
        ],
        ItemKind::Enum(variants) => seq![
            node(
                item.name@,
                StructureElementKind::Enum,
                item.range,
                none,
                variants_elements(variants@),
            ),
        ],
        ItemKind::Struct(data) => variant_data_elements(data, StructureElementKind::Struct),
        ItemKind::Union(data) => variant_data_elements(data, StructureElementKind::Union),
        ItemKind::Trait(items) => seq![
            node(
                item.name@,
                StructureElementKind::Trait,
                item.range,
                none,
                assoc_items_elements(items@),
            ),
        ],
        ItemKind::TraitAlias => seq![
            leaf(item.name@, StructureElementKind::TraitAlias, item.range, none),
        ],
        ItemKind::Impl(items) => seq![
            node(
                item.name@,
                StructureElementKind::Impl,
                item.range,
                none,
                assoc_items_elements(items@),
            ),
        ],
        ItemKind::MacCall => Seq::empty(),
        ItemKind::MacroDef => Seq::empty(),
    }
}

/// What a list of items adds to the level it stands in: what each item
/// adds, in the list's order.
pub open spec fn items_elements(items: Seq<Item>) -> Seq<ElementModel>
    decreases items,
{
    if items.len() == 0 {
        Seq::empty()
    } else {
        items_elements(items.subrange(0, items.len() - 1)) + item_elements(items[items.len() - 1])
    }
}

/// What an item of a trait or an impl adds: a constant adds a `Var` leaf
/// described by the snippet of its type, a function a `Function` described
/// by its signature, with what its body declares as children, a type a
/// `TypeAlias` leaf, and a macro call nothing.
pub open spec fn assoc_item_elements(item: AssocItem) -> Seq<ElementModel>
    decreases item,
{
    match item.kind {
        AssocItemKind::Const(ty) => seq![
            leaf(item.name@, StructureElementKind::Var, item.range, snippet_text(ty)),
        ],
        AssocItemKind::Fn(decl, body) => seq![
            node(
                item.name@,
                StructureElementKind::Function,
                item.range,
                fn_type_desc(decl),
                items_elements(body@),
            ),
        ],
        AssocItemKind::Type => seq![
            leaf(item.name@, StructureElementKind::TypeAlias, item.range, Seq::empty()),
        ],
        AssocItemKind::MacCall => Seq::empty(),
    }
}

/// What the items of a trait or an impl add, in order.
pub open spec fn assoc_items_elements(items: Seq<AssocItem>) -> Seq<ElementModel>
    decreases items,
{
    if items.len() == 0 {
        Seq::empty()
    } else {
        assoc_items_elements(items.subrange(0, items.len() - 1)) + assoc_item_elements(
            items[items.len() - 1],
        )
    }
}

/// What two lists of items add, one behind the other, is what the first
/// adds and then what the second adds: no item changes what its siblings
/// add.
pub proof fn lemma_items_elements_concat(first: Seq<Item>, second: Seq<Item>)
    ensures
        items_elements(first + second) == items_elements(first) + items_elements(second),
    decreases second.len(),
{
    if second.len() == 0 {
        assert(first + second =~= first);
        assert(items_elements(first) + items_elements(second) =~= items_elements(first));
    } else {
        let all = first + second;
        let front = second.subrange(0, second.len() - 1);
        assert(all.subrange(0, all.len() - 1) =~= first + front);
        assert(all[all.len() - 1] == second[second.len() - 1]);
        lemma_items_elements_concat(first, front);
        assert(items_elements(all) =~= items_elements(first) + items_elements(second));
    }
}

/// A list of one item adds what the item adds.
pub proof fn lemma_items_elements_single(item: Item)
    ensures
        items_elements(seq![item]) == item_elements(item),
{
    let items = seq![item];
    assert(items.subrange(0, items.len() - 1) =~= Seq::<Item>::empty());
    assert(items_elements(items.subrange(0, items.len() - 1)) =~= Seq::<ElementModel>::empty());
    assert(items_elements(items) =~= item_elements(item));
}

/// Nesting: a module adds exactly one element, and the children of that
/// element are what the module's own items add, whatever stands beside the
/// module.
pub proof fn lemma_module_children(module: Item)
    requires
        module.kind is Mod,
    ensures
        item_elements(module).len() == 1,
        item_elements(module)[0].kind == StructureElementKind::Mod,
        item_elements(module)[0].children == items_elements(module.kind->Mod_0@),
{
}

/// Nesting of one declaration: where a module holds a single declaration
/// that adds a single element, the module's element has exactly one child,
/// and that child is the declaration's own element.
pub proof fn lemma_module_with_one_declaration(module: Item, declaration: Item)
    requires
        module.kind is Mod,
        module.kind->Mod_0@ == seq![declaration],
        item_elements(declaration).len() == 1,
    ensures
        item_elements(module).len() == 1,
        item_elements(module)[0].children.len() == 1,
        item_elements(module)[0].children[0] == item_elements(declaration)[0],
{
    lemma_module_children(module);
    lemma_items_elements_single(declaration);
}

/// Viewing a list with one more element is viewing the list and appending
/// the view of that element.
pub proof fn lemma_elements_view_push(elements: Seq<StructureElement>, e: StructureElement)
    ensures
        elements_view(elements.push(e)) == elements_view(elements).push(e@),
{
    assert(elements_view(elements.push(e)) =~= elements_view(elements).push(e@));
}

/// Builds an outline, one level at a time.
pub struct StructureVisitor {
    /// The elements of the level that is being built.
    pub elements: Vec<StructureElement>,
}

impl View for StructureVisitor {
    type V = Seq<ElementModel>;

    /// The elements of the level that is being built, as mathematical values.
    open spec fn view(&self) -> Seq<ElementModel> {
        elements_view(self.elements@)
    }
}

impl StructureVisitor {
    /// A visitor that has built nothing yet.
    pub fn new() -> (visitor: StructureVisitor)
        ensures
            visitor@ == Seq::<ElementModel>::empty(),
    {
        let visitor = StructureVisitor { elements: Vec::new() };
        assert(visitor@ =~= Seq::<ElementModel>::empty());
        visitor
    }

    /// Starts a new, empty level for the children of an element, and hands
    /// out the level built so far: the element's siblings.
    pub fn begin_children(&mut self) -> (siblings: Vec<StructureElement>)
        ensures
            final(self)@ == Seq::<ElementModel>::empty(),
            siblings == old(self).elements,
    {
        let mut siblings: Vec<StructureElement> = Vec::new();
        std::mem::swap(&mut self.elements, &mut siblings);
        assert(self@ =~= Seq::<ElementModel>::empty());
        siblings
    }

    /// Finishes an element: the level built since `begin_children` becomes
    /// its children, `siblings` becomes the level again, and the element is
    /// appended to it.
    pub fn write_element_do(
        &mut self,
        ident: &str,
        kind: StructureElementKind,
        sourcerange: SourceRange,
        type_desc: String,
        siblings: Vec<StructureElement>,
    ) -> (r: Void)
        ensures
            r is Ok,
            final(self)@ == elements_view(siblings@).push(
                node(ident@, kind, sourcerange, type_desc@, old(self)@),
            ),
    {
        let mut siblings = siblings;
        let ghost level = siblings@;
        std::mem::swap(&mut self.elements, &mut siblings);
        let children = siblings;
        let element = StructureElement {
            name: String::from_str(ident),
            kind: kind,
            sourcerange: sourcerange,
            type_desc: type_desc,
            children: children,
        };
        proof {
            lemma_element_view(element);
            lemma_elements_view_push(level, element);
        }
        self.elements.push(element);
        Ok(())
    }

    /// Finishes an element as `write_element_do` does. A failure would be
    /// dropped here, so that one element cannot stop the walk.
    pub fn write_element_handled(
        &mut self,
        ident: &str,
        kind: StructureElementKind,
        sourcerange: SourceRange,
        type_desc: String,
        siblings: Vec<StructureElement>,
    )
        ensures
            final(self)@ == elements_view(siblings@).push(
                node(ident@, kind, sourcerange, type_desc@, old(self)@),
            ),
    {
        match self.write_element_do(ident, kind, sourcerange, type_desc, siblings) {
            Ok(ok) => ok,
            Err(_) => {},
        }
    }

    /// Appends an element without children to the level.
    pub fn write_leaf(
        &mut self,
        ident: &str,
        kind: StructureElementKind,
        sourcerange: SourceRange,
        type_desc: String,
    )
        ensures
            final(self)@ == old(self)@.push(leaf(ident@, kind, sourcerange, type_desc@)),
    {
        let siblings = self.begin_children();
        self.write_element_handled(ident, kind, sourcerange, type_desc, siblings);
    }

    /// Appends the leaf of a `use` tree to the level.
    pub fn write_ItemUse(&mut self, tree: &UseTree)
        ensures
            final(self)@ == old(self)@ + use_tree_elements(*tree),
    {
        if let UseTreeKind::Simple(_) = &tree.kind {
            if tree.last_segment.is_none() {
                assert(self@ =~= old(self)@ + use_tree_elements(*tree));
                return ;
            }
        }
        let use_spec = use_tree_to_string(tree);
        self.write_leaf(use_spec.as_str(), StructureElementKind::Use, tree.range, String::new());
        assert(self@ =~= old(self)@ + use_tree_elements(*tree));
    }

    /// Appends one element of the given kind for each field of `s`.
    pub fn visit_variant_data(&mut self, s: &VariantData, kind: StructureElementKind)
        ensures
            final(self)@ == old(self)@ + variant_data_elements(*s, kind),
    {
        match s {
            VariantData::Struct(fields) | VariantData::Tuple(fields) => {
                let ghost fs = fields@;
                let mut i: usize = 0;
                assert(self@ =~= old(self)@ + fields_elements(fs.take(0), kind));
                while i < fields.len()
                    invariant
                        i <= fields.len(),
                        fs == fields@,
                        self@ == old(self)@ + fields_elements(fs.take(i as int), kind),
                    decreases fields.len() - i,
                {
                    let field = &fields[i];
                    match &field.name {
                        Some(name) => self.write_leaf(name.as_str(), kind, field.range, String::new()),
                        None => self.write_leaf("", kind, field.range, String::new()),
                    }
                    i = i + 1;
                    proof {
                        reveal_strlit("");
                        assert(""@ =~= Seq::<char>::empty());
                        assert(self@ =~= old(self)@ + fields_elements(fs.take(i as int), kind));
                    }
                }
                assert(fs.take(fields.len() as int) =~= fs);
            },
            VariantData::Unit => {
                assert(self@ =~= old(self)@ + variant_data_elements(*s, kind));
            },
        }
    }
}

impl StructureVisitor {
    /// Appends what the fields of one enum variant add.
    pub fn visit_variant(&mut self, v: &Variant)
        ensures
            final(self)@ == old(self)@ + variant_data_elements(
                v.data,
                StructureElementKind::EnumVariant,
            ),
    {
        self.visit_variant_data(&v.data, StructureElementKind::EnumVariant);
    }

    /// Appends what the variants of an enum add.
    pub fn visit_enum_def(&mut self, variants: &Vec<Variant>)
        ensures
            final(self)@ == old(self)@ + variants_elements(variants@),
    {
        let ghost vs = variants@;
        let mut i: usize = 0;
        assert(self@ =~= old(self)@ + variants_elements(vs.take(0)));
        while i < variants.len()
            invariant
                i <= variants.len(),
                vs == variants@,
                self@ == old(self)@ + variants_elements(vs.take(i as int)),
            decreases variants.len() - i,
        {
            self.visit_variant(&variants[i]);
            i = i + 1;
            proof {
                let front = vs.take(i as int);
                assert(front.last() == variants[i - 1]);
                assert(front.drop_last() =~= vs.take(i - 1));
                assert(self@ =~= old(self)@ + variants_elements(front));
            }
        }
        assert(vs.take(variants.len() as int) =~= vs);
    }

    /// Appends the element of an item of a foreign block.
    pub fn visit_foreign_item(&mut self, foreign_item: &ForeignItem)
        ensures
            final(self)@ == old(self)@.push(foreign_item_element(*foreign_item)),
    {
        let name = foreign_item.name.as_str();
        let range = foreign_item.range;
        match &foreign_item.kind {
            ForeignItemKind::Fn(decl) => {
                let type_desc = get_type_desc_from_fndecl(decl);
                self.write_leaf(name, StructureElementKind::Function, range, type_desc);
            },
            ForeignItemKind::Static(ty) => {
                let type_desc = snippet_to_string(ty);
                self.write_leaf(name, StructureElementKind::Var, range, type_desc);
            },
            ForeignItemKind::TyAlias => {
                self.write_leaf(name, StructureElementKind::TypeAlias, range, String::new());
            },
            ForeignItemKind::MacCall => {
                self.write_leaf(name, StructureElementKind::MacroDef, range, String::new());
            },
        }
    }

    /// Appends the elements of the items of a foreign block.
    pub fn visit_foreign_items(&mut self, items: &Vec<ForeignItem>)
        ensures
            final(self)@ == old(self)@ + foreign_items_elements(items@),
    {
        let ghost fs = items@;
        let mut i: usize = 0;
        assert(self@ =~= old(self)@ + foreign_items_elements(fs.take(0)));
        while i < items.len()
            invariant
                i <= items.len(),
                fs == items@,
                self@ == old(self)@ + foreign_items_elements(fs.take(i as int)),
            decreases items.len() - i,
        {
            self.visit_foreign_item(&items[i]);
            i = i + 1;
            assert(self@ =~= old(self)@ + foreign_items_elements(fs.take(i as int)));
        }
        assert(fs.take(items.len() as int) =~= fs);
    }

    /// Appends what the items of a module add, in their order.
    pub fn visit_mod(&mut self, items: &Vec<Item>)
        ensures
            final(self)@ == old(self)@ + items_elements(items@),
        decreases items, 0nat,
    {
        let ghost its = items@;
        let mut i: usize = 0;
        assert(self@ =~= old(self)@ + items_elements(its.subrange(0, 0)));
        while i < items.len()
            invariant
                i <= items.len(),
                its == items@,
                self@ == old(self)@ + items_elements(its.subrange(0, i as int)),
            decreases items.len() - i,
        {
            self.visit_item(&items[i]);
            i = i + 1;
            proof {
                let front = its.subrange(0, i as int);
                assert(front[front.len() - 1] == items[i - 1]);
                assert(front.subrange(0, front.len() - 1) =~= its.subrange(0, i - 1));
                assert(self@ =~= old(self)@ + items_elements(front));
            }
        }
        assert(its.subrange(0, items.len() as int) =~= its);
    }

    /// Appends the element of a function: a `Function` described by its
    /// signature, whose children are what the items of its body add.
    pub fn visit_fn(&mut self, ident: &str, range: SourceRange, fd: &FnDecl, body: &Vec<Item>)
        ensures
            final(self)@ == old(self)@.push(
                node(
                    ident@,
                    StructureElementKind::Function,
                    range,
                    fn_type_desc(*fd),
                    items_elements(body@),
                ),
            ),
        decreases body, 1nat,
    {
        let type_desc = get_type_desc_from_fndecl(fd);
        let siblings = self.begin_children();
        self.visit_mod(body);
        assert(self@ =~= items_elements(body@));
        self.write_element_handled(ident, StructureElementKind::Function, range, type_desc, siblings);
    }

    /// Appends what an item of a trait or an impl adds.
    pub fn visit_assoc_item(&mut self, item: &AssocItem)
        ensures
            final(self)@ == old(self)@ + assoc_item_elements(*item),
        decreases item, 0nat,
    {
        let name = item.name.as_str();
        match &item.kind {
            AssocItemKind::Const(ty) => {
                let type_desc = snippet_to_string(ty);
                self.write_leaf(name, StructureElementKind::Var, item.range, type_desc);
            },
            AssocItemKind::Fn(decl, body) => {
                proof {
                    assert(item.kind->Fn_1 == *body);
                    assert(decreases_to!(*item => item.kind));
                    assert(decreases_to!(item.kind => item.kind->Fn_1));
                }
                self.visit_fn(name, item.range, decl, body);
            },
            AssocItemKind::Type => {
                self.write_leaf(name, StructureElementKind::TypeAlias, item.range, String::new());
            },
            AssocItemKind::MacCall => {},
        }
        assert(self@ =~= old(self)@ + assoc_item_elements(*item));
    }

    /// Appends what the items of a trait or an impl add, in their order.
    pub fn visit_assoc_items(&mut self, items: &Vec<AssocItem>)
        ensures
            final(self)@ == old(self)@ + assoc_items_elements(items@),
        decreases items, 0nat,
    {
        let ghost its = items@;
        let mut i: usize = 0;
        assert(self@ =~= old(self)@ + assoc_items_elements(its.subrange(0, 0)));
        while i < items.len()
            invariant
                i <= items.len(),
                its == items@,
                self@ == old(self)@ + assoc_items_elements(its.subrange(0, i as int)),
            decreases items.len() - i,
        {
            self.visit_assoc_item(&items[i]);
            i = i + 1;
            proof {
                let front = its.subrange(0, i as int);
                assert(front[front.len() - 1] == items[i - 1]);
                assert(front.subrange(0, front.len() - 1) =~= its.subrange(0, i - 1));
                assert(self@ =~= old(self)@ + assoc_items_elements(front));
            }
        }
        assert(its.subrange(0, items.len() as int) =~= its);
    }

    /// Appends what an item adds to the level.
    pub fn visit_item(&mut self, item: &Item)
        ensures
            final(self)@ == old(self)@ + item_elements(*item),
        decreases item, 1nat,
    {
        let name = item.name.as_str();
        let range = item.range;
        let kind;
        match &item.kind {
            ItemKind::GlobalAsm => {
                assert(self@ =~= old(self)@ + item_elements(*item));
                return ;
            },
            ItemKind::TraitAlias => {
                kind = StructureElementKind::TraitAlias;
            },
            ItemKind::ExternCrate => {
                kind = StructureElementKind::ExternCrate;
            },
            ItemKind::Use(tree) => {
                self.write_ItemUse(tree);
                return ;
            },
            ItemKind::Static(ty) | ItemKind::Const(ty) => {
                let type_desc = snippet_to_string(ty);
                self.write_leaf(name, StructureElementKind::Var, range, type_desc);
                assert(self@ =~= old(self)@ + item_elements(*item));
                return ;
            },
            ItemKind::Fn(decl, body) => {
                proof {
                    assert(item.kind->Fn_1 == *body);
                    assert(decreases_to!(*item => item.kind));
                    assert(decreases_to!(item.kind => item.kind->Fn_1));
                }
                self.visit_fn(name, range, decl, body);
                assert(self@ =~= old(self)@ + item_elements(*item));
                return ;
            },
            ItemKind::Mod(_) => {
                kind = StructureElementKind::Mod;
            },
            ItemKind::ForeignMod(_) => {
                kind = StructureElementKind::Mod;
            },
            ItemKind::TyAlias => {
                kind = StructureElementKind::TypeAlias;
            },
            ItemKind::Enum(_) => {
                kind = StructureElementKind::Enum;
            },
            ItemKind::Impl(_) => {
                kind = StructureElementKind::Impl;
            },
            ItemKind::Struct(data) => {
                self.visit_variant_data(data, StructureElementKind::Struct);
                return ;
            },
            ItemKind::Union(data) => {
                self.visit_variant_data(data, StructureElementKind::Union);
                return ;
            },
            ItemKind::Trait(_) => {
                kind = StructureElementKind::Trait;
            },
            ItemKind::MacCall => {
                assert(self@ =~= old(self)@ + item_elements(*item));
                return ;
            },
            ItemKind::MacroDef => {
                assert(self@ =~= old(self)@ + item_elements(*item));
                return ;
            },
        }
        let siblings = self.begin_children();
        self.walk_item(item);
        self.write_element_handled(name, kind, range, String::new(), siblings);
        assert(self@ =~= old(self)@ + item_elements(*item));
    }

    /// Appends what the declarations inside an item add: the items of a
    /// module, a foreign block, a trait or an impl, and the variants of an
    /// enum. Every other item holds nothing to walk.
    pub fn walk_item(&mut self, item: &Item)
        ensures
            final(self)@ == old(self)@ + inner_elements(*item),
        decreases item, 0nat,
    {
        match &item.kind {
            ItemKind::Mod(items) => {
                proof {
                    assert(item.kind->Mod_0 == *items);
                    assert(decreases_to!(*item => item.kind));
                    assert(decreases_to!(item.kind => item.kind->Mod_0));
                }
                self.visit_mod(items);
            },
            ItemKind::ForeignMod(items) => {
                self.visit_foreign_items(items);
            },
            ItemKind::Enum(variants) => {
                self.visit_enum_def(variants);
            },
            ItemKind::Trait(items) => {
                proof {
                    assert(item.kind->Trait_0 == *items);
                    assert(decreases_to!(*item => item.kind));
                    assert(decreases_to!(item.kind => item.kind->Trait_0));
                }
                self.visit_assoc_items(items);
            },
            ItemKind::Impl(items) => {
                proof {
                    assert(item.kind->Impl_0 == *items);
                    assert(decreases_to!(*item => item.kind));
                    assert(decreases_to!(item.kind => item.kind->Impl_0));
                }
                self.visit_assoc_items(items);
            },
            _ => {
                assert(self@ =~= old(self)@ + inner_elements(*item));
            },
        }
    }
}

/// The text of a snippet as a string of its own; a missing snippet is empty.
pub fn snippet_to_string(snippet: &Option<String>) -> (text: String)
    ensures
        text@ == snippet_text(*snippet),
{
    match snippet {
        Some(found) => found.clone(),
        None => String::new(),
    }
}

} // verus!
