//! Building definitions and directives.
use crate::ast::{
    Const, Definition, Directive, Enum, ExternCrate, Field, FnParameter, Function, Implementation,
    Macro, Misc, Module, Mutability, NodeKind, NodeType, Plane, Statement, Static, Struct, Trait,
    TraitAlias, Type, TypeAlias, Union, Use, Visibility,
};
use crate::build_stmt::block_of;
use crate::context::{advanced, ParserCtx};
use crate::count::{
    const_ids, definitions_ids, definitions_ok, expr_ok, fn_ids, fn_ok, impl_item_ids, impl_item_ok,
    impl_items_ids, impl_items_ok, imports_ids, item_ids, item_ok, params_ids, returns_self,
    trait_item_ids, trait_item_ok, trait_items_ids, trait_items_ok,
};
use crate::lists::{
    lemma_definitions_prefix, lemma_impl_items_prefix, lemma_params_prefix,
    lemma_trait_items_prefix,
};
use crate::record::{
    definitions_log, fields_log, fn_log, impl_const_log, impl_items_log, imports_log, item_log,
    last_part_log, params_log, stored_def, trait_item_log, trait_items_log, use_log,
};
use crate::shape::{
    all_full_paths, full_paths, heads, is_contract_attr, is_definitions, is_field, is_fields, is_fn,
    is_impl_const, is_impl_items, is_imports, is_item, is_last_part, is_macro, is_params, is_plane,
    is_struct_fields, is_trait_item, is_trait_items, is_type_alias, is_use, marks_contract, under,
    without_last, ImplParts,
};
use crate::storage::StoredNode;
use crate::syntax::{
    args_view, attrs_view, fields_view, impl_items_view, items_view, opt_text, trait_items_view,
    use_trees_view, ItemV, Location, SrcArg, SrcAttr, SrcConst, SrcEnum, SrcExternCrate, SrcField,
    SrcFn, SrcImpl, SrcImplFn, SrcImplItem, SrcItem, SrcMacro, SrcMod, SrcPatKind, SrcStatic,
    SrcStruct, SrcTokens, SrcTrait, SrcTraitAlias, SrcTraitConst, SrcTraitFn, SrcTraitItem, SrcType,
    SrcTypeAlias, SrcUnion, SrcUse, SrcUseTree, TraitItemV,
};
use crate::text::{no_spaces, push_segment, same_text, texts, without_spaces};
use std::rc::Rc;
use vstd::prelude::*;

verus! {

/// The first name of each attribute that has one.
pub fn extract_attrs(attrs: &Vec<SrcAttr>) -> (r: Vec<String>)
    ensures
        texts(r@) == heads(attrs_view(attrs@)),
{
    let ghost s = attrs_view(attrs@);
    let mut r: Vec<String> = Vec::new();
    for i in 0..attrs.len()
        invariant
            s == attrs_view(attrs@),
            texts(r@) == heads(s.take(i as int)),
    {
        let ghost before = r@;
        assert(s.take(i + 1).drop_last() =~= s.take(i as int));
        if attrs[i].path.len() > 0 {
            r.push(attrs[i].path[0].clone());
            assert(texts(r@) =~= texts(before).push(s[i as int][0]));
        }
    }
    assert(s.take(s.len() as int) =~= s);
    r
}

/// Whether the attributes mark a struct as a contract.
fn is_struct_contract(attrs: &Vec<SrcAttr>) -> (r: bool)
    ensures
        r == marks_contract(attrs_view(attrs@)),
{
    for i in 0..attrs.len()
        invariant
            forall|j: int| 0 <= j < i ==> !is_contract_attr(#[trigger] attrs_view(attrs@)[j]),
    {
        let path = &attrs[i].path;
        if path.len() == 1 && same_text(path[0].as_str(), "contract") {
            assert(is_contract_attr(attrs_view(attrs@)[i as int]));
            return true;
        }
    }
    false
}

/// The same texts once more.
fn copy_texts(v: &Vec<String>) -> (r: Vec<String>)
    ensures
        texts(r@) == texts(v@),
{
    let mut r: Vec<String> = Vec::new();
    for i in 0..v.len()
        invariant
            r@.len() == i,
            forall|j: int| 0 <= j < i ==> (#[trigger] r@[j])@ == v@[j]@,
    {
        r.push(v[i].clone());
    }
    assert(texts(r@) =~= texts(v@));
    r
}

/// The same text once more, where there is one.
fn copy_opt(o: &Option<String>) -> (r: Option<String>)
    ensures
        opt_text(r) == opt_text(*o),
{
    match o {
        Some(s) => Some(s.clone()),
        None => None,
    }
}

/// The nodes of an `impl` block, by kind.
struct ImplNodes {
    functions: Vec<Rc<Function>>,
    constants: Vec<Rc<Const>>,
    type_aliases: Vec<Rc<TypeAlias>>,
    macros: Vec<Rc<Macro>>,
    planes: Vec<Rc<Plane>>,
}

impl ImplNodes {
    spec fn view(&self) -> ImplParts {
        ImplParts {
            functions: self.functions@,
            constants: self.constants@,
            type_aliases: self.type_aliases@,
            macros: self.macros@,
            planes: self.planes@,
        }
    }

    /// No nodes at all.
    fn new() -> (r: ImplNodes)
        ensures
            r.functions@.len() == 0,
            r.constants@.len() == 0,
            r.type_aliases@.len() == 0,
            r.macros@.len() == 0,
            r.planes@.len() == 0,
    {
        ImplNodes {
            functions: Vec::new(),
            constants: Vec::new(),
            type_aliases: Vec::new(),
            macros: Vec::new(),
            planes: Vec::new(),
        }
    }
}

/// `prefix::name`, or `name` alone where there is no prefix.
fn join(prefix: &Option<String>, name: &str) -> (r: String)
    ensures
        r@ == under(opt_text(*prefix), name@),
{
    match prefix {
        Some(p) => push_segment(p.as_str(), name),
        None => name.to_owned(),
    }
}

/// The full path of each name that a `use` tree brings in, in the order in which they are written.
pub fn use_tree_to_full_paths(tree: &SrcUseTree, prefix: Option<String>) -> (r: Vec<String>)
    ensures
        texts(r@) == full_paths(tree@, opt_text(prefix)),
    decreases tree,
{
    match tree {
        SrcUseTree::Path { ident, tree } => {
            let next = join(&prefix, ident.as_str());
            use_tree_to_full_paths(tree, Some(next))
        },
        SrcUseTree::Name { ident } => {
            let mut r: Vec<String> = Vec::new();
            r.push(join(&prefix, ident.as_str()));
            assert(texts(r@) =~= full_paths(tree@, opt_text(prefix)));
            r
        },
        SrcUseTree::Rename { ident, rename } => {
            let mut path = join(&prefix, ident.as_str());
            path.push('%');
            path.append(rename.as_str());
            let mut r: Vec<String> = Vec::new();
            r.push(path);
            assert(r@[0]@ =~= under(opt_text(prefix), ident@) + seq!['%'] + rename@);
            assert(texts(r@) =~= full_paths(tree@, opt_text(prefix)));
            r
        },
        SrcUseTree::Glob => {
            let mut star = String::new();
            star.push('*');
            assert(star@ =~= seq!['*']);
            let mut r: Vec<String> = Vec::new();
            r.push(join(&prefix, star.as_str()));
            assert(texts(r@) =~= full_paths(tree@, opt_text(prefix)));
            r
        },
        SrcUseTree::Group { items } => {
            let ghost s = use_trees_view(items@);
            let mut r: Vec<String> = Vec::new();
            for i in 0..items.len()
                invariant
                    tree matches SrcUseTree::Group { items: all } && all == *items,
                    s == use_trees_view(items@),
                    texts(r@) == all_full_paths(s.take(i as int), opt_text(prefix)),
            {
                let ghost before = r@;
                proof {
                    assert(s.take(i + 1).drop_last() =~= s.take(i as int));
                    assert(decreases_to!(tree => *items));
                    assert(decreases_to!(items@ => items@[i as int]));
                }
                let mut paths = use_tree_to_full_paths(&items[i], copy_opt(&prefix));
                let ghost more = paths@;
                r.append(&mut paths);
                assert(texts(r@) =~= texts(before) + texts(more));
            }
            assert(s.take(s.len() as int) =~= s);
            r
        },
    }
}

impl ParserCtx {
    /// Stores a definition.
    fn store_definition(&mut self, def: &Definition, parent_id: u32)
        ensures
            advanced(*old(self), *final(self), 0, stored_def(*def, parent_id)),
    {
        self.storage.add_node(NodeKind::Definition(def.clone()), parent_id);
        assert(self.storage@ =~= old(self).storage@ + stored_def(*def, parent_id));
    }

    /// Builds the definition that an item becomes.
    pub fn build_definition(&mut self, item: &SrcItem, parent_id: u32) -> (r: Definition)
        requires
            item_ok(item@),
            old(self).id + item_ids(item@) <= u32::MAX,
        ensures
            is_item(item@, old(self).id as int, r),
            advanced(*old(self), *final(self), item_ids(item@), item_log(item@, r, parent_id)),
        decreases item,
    {
        match item {
            SrcItem::Const(x) => self.build_const_definition(x, parent_id),
            SrcItem::Enum(x) => Definition::Enum(self.build_enum(x, parent_id)),
            SrcItem::ExternCrate(x) => self.build_extern_crate_definition(x, parent_id),
            SrcItem::Fn(x) => Definition::Function(
                self.build_function_from_item_fn(x, None, parent_id),
            ),
            SrcItem::ForeignMod(x) => self.build_plane_definition(x, parent_id),
            SrcItem::Impl(x) => self.process_item_impl(x, parent_id),
            SrcItem::Macro(x) => self.build_macro_definition(x, parent_id),
            SrcItem::Mod(x) => self.build_mod_definition(x, parent_id),
            SrcItem::Static(x) => self.build_static_definition(x, parent_id),
            SrcItem::Struct(x) => Definition::Struct(self.build_struct(x, parent_id)),
            SrcItem::Trait(x) => self.build_trait_definition(x, parent_id),
            SrcItem::TraitAlias(x) => self.build_trait_alias_definition(x, parent_id),
            SrcItem::TypeAlias(x) => self.build_type_alias_definition(x, parent_id),
            SrcItem::Union(x) => self.build_union_definition(x, parent_id),
            SrcItem::Verbatim(x) => self.build_plane_definition(x, parent_id),
            SrcItem::Use(_) => vstd::pervasive::unreached(),
        }
    }

    /// Builds a struct; the types of its fields are not stored.
    pub fn build_struct(&mut self, struct_item: &SrcStruct, parent_id: u32) -> (r: Rc<Struct>)
        requires
            old(self).id + item_ids(struct_item@) <= u32::MAX,
        ensures
            is_item(struct_item@, old(self).id as int, Definition::Struct(r)),
            advanced(
                *old(self),
                *final(self),
                item_ids(struct_item@),
                item_log(struct_item@, Definition::Struct(r), parent_id),
            ),
    {
        let ghost s = fields_view(struct_item.fields@);
        let attributes = extract_attrs(&struct_item.attrs);
        let mut fields: Vec<(String, Type)> = Vec::new();
        let id: u32 = self.get_node_id();
        let ghost n = s.len();
        for i in 0..struct_item.fields.len()
            invariant
                s == fields_view(struct_item.fields@),
                n == s.len(),
                id == old(self).id,
                old(self).id + 1 + n <= u32::MAX,
                is_struct_fields(s.take(i as int), id + 1, fields@),
                advanced(*old(self), *self, (1 + i) as nat, Seq::empty()),
        {
            let name = match &struct_item.fields[i].name {
                Some(ident) => ident.clone(),
                None => "unnamed".to_owned(),
            };
            let ty = self.build_type(&struct_item.fields[i].ty, id);
            fields.push((name, ty));
        }
        assert(s.take(s.len() as int) =~= s);
        let r = Rc::new(
            Struct {
                id,
                attributes,
                location: struct_item.at,
                name: struct_item.name.clone(),
                fields,
                is_contract: is_struct_contract(&struct_item.attrs),
                visibility: Visibility::from_syn_visibility(struct_item.vis.as_str()),
            },
        );
        let def = Definition::Struct(r.clone());
        self.store_definition(&def, parent_id);
        assert(self.storage@ =~= old(self).storage@ + item_log(struct_item@, def, parent_id));
        r
    }

    /// Builds an enum.
    pub fn build_enum(&mut self, enum_item: &SrcEnum, parent_id: u32) -> (r: Rc<Enum>)
        requires
            old(self).id + item_ids(enum_item@) <= u32::MAX,
        ensures
            is_item(enum_item@, old(self).id as int, Definition::Enum(r)),
            advanced(
                *old(self),
                *final(self),
                item_ids(enum_item@),
                item_log(enum_item@, Definition::Enum(r), parent_id),
            ),
    {
        let attributes = extract_attrs(&enum_item.attrs);
        let variants = copy_texts(&enum_item.variants);
        let id: u32 = self.get_node_id();
        let r = Rc::new(
            Enum {
                id,
                attributes,
                location: enum_item.at,
                name: enum_item.name.clone(),
                visibility: Visibility::from_syn_visibility(enum_item.vis.as_str()),
                variants,
            },
        );
        let def = Definition::Enum(r.clone());
        self.store_definition(&def, parent_id);
        assert(self.storage@ =~= old(self).storage@ + item_log(enum_item@, def, parent_id));
        r
    }

    /// Builds an `impl` block: the type it is for, then its items, each put with those of its kind.
    pub fn process_item_impl(&mut self, item_impl: &SrcImpl, parent_id: u32) -> (r: Definition)
        requires
            item_ok(item_impl@),
            old(self).id + item_ids(item_impl@) <= u32::MAX,
        ensures
            is_item(item_impl@, old(self).id as int, r),
            advanced(
                *old(self),
                *final(self),
                item_ids(item_impl@),
                item_log(item_impl@, r, parent_id),
            ),
        decreases item_impl,
    {
        let id: u32 = self.get_node_id();
        let attributes = extract_attrs(&item_impl.attrs);
        let for_type = self.build_type(&item_impl.self_ty, id);
        let nodes = self.build_impl_items(&item_impl.items, &item_impl.self_ty, id);
        let def = Definition::Implementation(
            Rc::new(
                Implementation {
                    id,
                    attributes,
                    location: item_impl.at,
                    for_type,
                    functions: nodes.functions,
                    constants: nodes.constants,
                    type_aliases: nodes.type_aliases,
                    macros: nodes.macros,
                    plane_defs: nodes.planes,
                },
            ),
        );
        self.store_definition(&def, parent_id);
        assert(self.storage@ =~= old(self).storage@ + item_log(item_impl@, def, parent_id));
        def
    }

    /// Builds the items of an `impl` block, each put with those of its kind.
    #[verifier::spinoff_prover]
    fn build_impl_items(&mut self, items: &Vec<SrcImplItem>, self_ty: &SrcType, id: u32) -> (r:
        ImplNodes)
        requires
            impl_items_ok(impl_items_view(items@)),
            old(self).id + impl_items_ids(impl_items_view(items@)) <= u32::MAX,
        ensures
            is_impl_items(
                impl_items_view(items@),
                no_spaces(self_ty@.text),
                old(self).id as int,
                r@,
            ),
            advanced(
                *old(self),
                *final(self),
                impl_items_ids(impl_items_view(items@)),
                impl_items_log(impl_items_view(items@), r@, id),
            ),
        decreases items,
    {
        let mut nodes = ImplNodes::new();
        let ghost s = impl_items_view(items@);
        let ghost self_name = no_spaces(self_ty@.text);
        assert(self.storage@ =~= old(self).storage@ + impl_items_log(s.take(0), nodes@, id));
        for i in 0..items.len()
            invariant
                s == impl_items_view(items@),
                self_name == no_spaces(self_ty@.text),
                impl_items_ok(s),
                old(self).id + impl_items_ids(s) <= u32::MAX,
                is_impl_items(s.take(i as int), self_name, old(self).id as int, nodes@),
                advanced(
                    *old(self),
                    *self,
                    impl_items_ids(s.take(i as int)),
                    impl_items_log(s.take(i as int), nodes@, id),
                ),
        {
            proof {
                lemma_impl_items_prefix(s, i + 1);
                assert(s.take(i + 1).drop_last() =~= s.take(i as int));
                assert(decreases_to!(items@ => items@[i as int]));
            }
            self.build_impl_item(&items[i], self_ty, id, &mut nodes);
            assert(self.storage@ =~= old(self).storage@ + impl_items_log(s.take(i + 1), nodes@, id));
        }
        assert(s.take(s.len() as int) =~= s);
        nodes
    }

    /// Builds one item of an `impl` block and puts it with those of its kind.
    fn build_impl_item(
        &mut self,
        item: &SrcImplItem,
        self_ty: &SrcType,
        id: u32,
        nodes: &mut ImplNodes,
    )
        requires
            impl_item_ok(item@),
            old(self).id + impl_item_ids(item@) <= u32::MAX,
        ensures
            is_last_part(item@, no_spaces(self_ty@.text), old(self).id as int, final(nodes)@),
            without_last(final(nodes)@, item@) == old(nodes)@,
            advanced(
                *old(self),
                *final(self),
                impl_item_ids(item@),
                last_part_log(item@, final(nodes)@, id),
            ),
        decreases item,
    {
        match item {
            SrcImplItem::Fn(assoc_fn) => {
                let function = self.build_function_from_impl_item_fn(assoc_fn, self_ty, id);
                nodes.functions.push(function);
                assert(nodes.functions@.drop_last() =~= old(nodes).functions@);
            },
            SrcImplItem::Const(item_const) => {
                let def = self.build_const_definition_for_impl_item_const(item_const, id);
                if let Definition::Const(constant) = def {
                    nodes.constants.push(constant);
                    assert(nodes.constants@.drop_last() =~= old(nodes).constants@);
                }
            },
            SrcImplItem::Type(item_type) => {
                let alias = self.build_associated_type(item_type, id);
                nodes.type_aliases.push(alias);
                assert(nodes.type_aliases@.drop_last() =~= old(nodes).type_aliases@);
            },
            SrcImplItem::Macro(item_macro) => {
                let def = self.build_marco_definition_for_impl_item_macro(item_macro, id);
                if let Definition::Macro(x) = def {
                    nodes.macros.push(x);
                    assert(nodes.macros@.drop_last() =~= old(nodes).macros@);
                }
            },
            SrcImplItem::Verbatim(tokens) => {
                let def = self.build_plane_definition(tokens, id);
                if let Definition::Plane(x) = def {
                    nodes.planes.push(x);
                    assert(nodes.planes@.drop_last() =~= old(nodes).planes@);
                }
            },
        }
    }

    /// Builds a macro call that stands as an item. It is stored as a statement.
    pub fn build_macro_definition(&mut self, macro_def: &SrcMacro, parent_id: u32) -> (r:
        Definition)
        requires
            old(self).id < u32::MAX,
        ensures
            is_item(ItemV::Macro(macro_def@), old(self).id as int, r),
            advanced(
                *old(self),
                *final(self),
                1,
                item_log(ItemV::Macro(macro_def@), r, parent_id),
            ),
    {
        let def = self.new_macro(macro_def);
        self.storage.add_node(NodeKind::Statement(Statement::Definition(def.clone())), parent_id);
        assert(self.storage@ =~= old(self).storage@ + item_log(
            ItemV::Macro(macro_def@),
            def,
            parent_id,
        ));
        def
    }

    /// Draws an id for a macro call.
    fn new_macro(&mut self, item: &SrcMacro) -> (r: Definition)
        requires
            old(self).id < u32::MAX,
        ensures
            r matches Definition::Macro(x) && is_macro(item@, old(self).id as int, *x),
            advanced(*old(self), *final(self), 1, Seq::empty()),
    {
        let id: u32 = self.get_node_id();
        assert(self.storage@ =~= old(self).storage@ + Seq::<StoredNode>::empty());
        Definition::Macro(
            Rc::new(
                Macro { id, location: item.at, name: item.name.clone(), text: item.text.clone() },
            ),
        )
    }

    /// Builds a constant. Its value is stored once as it is built and once more as what it holds.
    pub fn build_const_definition(
        &mut self,
        item_const: &SrcConst,
        parent_id: u32,
    ) -> (r: Definition)
        requires
            item_ok(ItemV::Const(item_const@)),
            old(self).id + item_ids(ItemV::Const(item_const@)) <= u32::MAX,
        ensures
            is_item(ItemV::Const(item_const@), old(self).id as int, r),
            advanced(
                *old(self),
                *final(self),
                item_ids(ItemV::Const(item_const@)),
                item_log(ItemV::Const(item_const@), r, parent_id),
            ),
        decreases item_const,
    {
        let id: u32 = self.get_node_id();
        let value = self.build_expression(&item_const.expr, false, id);
        self.store_expression(&value, id);
        let type_ = self.build_type(&item_const.ty, id);
        let def = Definition::Const(
            Rc::new(
                Const {
                    id,
                    location: item_const.at,
                    name: item_const.name.clone(),
                    visibility: Visibility::from_syn_visibility(item_const.vis.as_str()),
                    type_,
                    value: Some(value),
                },
            ),
        );
        self.store_definition(&def, parent_id);
        assert(self.storage@ =~= old(self).storage@ + item_log(ItemV::Const(item_const@), def, parent_id));
        def
    }

    /// Builds the item that names a crate.
    pub fn build_extern_crate_definition(
        &mut self,
        stmt_extern_crate: &SrcExternCrate,
        parent_id: u32,
    ) -> (r: Definition)
        requires
            old(self).id + item_ids(stmt_extern_crate@) <= u32::MAX,
        ensures
            is_item(stmt_extern_crate@, old(self).id as int, r),
            advanced(
                *old(self),
                *final(self),
                item_ids(stmt_extern_crate@),
                item_log(stmt_extern_crate@, r, parent_id),
            ),
    {
        let id: u32 = self.get_node_id();
        let def = Definition::ExternCrate(
            Rc::new(
                ExternCrate {
                    id,
                    location: stmt_extern_crate.at,
                    name: stmt_extern_crate.name.clone(),
                    visibility: Visibility::from_syn_visibility(stmt_extern_crate.vis.as_str()),
                    alias: copy_opt(&stmt_extern_crate.rename),
                },
            ),
        );
        self.store_definition(&def, parent_id);
        assert(self.storage@ =~= old(self).storage@ + item_log(stmt_extern_crate@, def, parent_id));
        def
    }

    /// Builds the parameters of a function: `self`, and each argument whose pattern is a name. An
    /// argument with another pattern is left out.
    fn build_parameters(&mut self, inputs: &Vec<SrcArg>, id: u32) -> (r: Vec<Rc<FnParameter>>)
        requires
            old(self).id + params_ids(args_view(inputs@)) <= u32::MAX,
        ensures
            is_params(args_view(inputs@), old(self).id as int, r@),
            advanced(
                *old(self),
                *final(self),
                params_ids(args_view(inputs@)),
                params_log(r@, id),
            ),
    {
        let ghost s = args_view(inputs@);
        let mut r: Vec<Rc<FnParameter>> = Vec::new();
        assert(self.storage@ =~= old(self).storage@ + params_log(r@, id));
        for i in 0..inputs.len()
            invariant
                s == args_view(inputs@),
                old(self).id + params_ids(s) <= u32::MAX,
                is_params(s.take(i as int), old(self).id as int, r@),
                advanced(
                    *old(self),
                    *self,
                    params_ids(s.take(i as int)),
                    params_log(r@, id),
                ),
        {
            let ghost built = r@;
            proof {
                lemma_params_prefix(s, i + 1);
                assert(s.take(i + 1).drop_last() =~= s.take(i as int));
            }
            match &inputs[i] {
                SrcArg::Receiver { at, ty, is_mut } => {
                    let own: u32 = self.get_node_id();
                    let param = Rc::new(
                        FnParameter {
                            id: own,
                            name: "self".to_owned(),
                            location: *at,
                            type_text: ty.clone(),
                            is_self: true,
                            is_mut: *is_mut,
                        },
                    );
                    r.push(param.clone());
                    self.storage.add_node(NodeKind::Misc(Misc::FnParameter(param)), id);
                    assert(r@.drop_last() =~= built);
                },
                SrcArg::Typed { at, pat, ty } => {
                    if let SrcPatKind::Ident { ident, is_mut } = &pat.kind {
                        let is_self = same_text(ident.as_str(), "self");
                        let own: u32 = self.get_node_id();
                        let param = Rc::new(
                            FnParameter {
                                id: own,
                                name: ident.clone(),
                                location: *at,
                                type_text: ty.clone(),
                                is_self,
                                is_mut: *is_mut,
                            },
                        );
                        r.push(param.clone());
                        self.storage.add_node(NodeKind::Misc(Misc::FnParameter(param)), id);
                        assert(r@.drop_last() =~= built);
                    }
                },
            }
            assert(self.storage@ =~= old(self).storage@ + params_log(r@, id));
        }
        assert(s.take(s.len() as int) =~= s);
        r
    }

    /// Builds a function with a body; `self_name` is what `Self` stands for as its return type.
    pub fn build_function_from_item_fn(
        &mut self,
        item_fn: &SrcFn,
        self_name: Option<String>,
        parent_id: u32,
    ) -> (r: Rc<Function>)
        requires
            fn_ok(item_fn@, self_name is Some),
            old(self).id + fn_ids(item_fn@) <= u32::MAX,
        ensures
            is_fn(item_fn@, opt_text(self_name), old(self).id as int, *r),
            advanced(*old(self), *final(self), fn_ids(item_fn@), fn_log(item_fn@, r, parent_id)),
        decreases item_fn,
    {
        let id: u32 = self.get_node_id();
        let parameters = self.build_parameters(&item_fn.sig.inputs, id);
        let output = match &item_fn.sig.output {
            Some(ty) => {
                let mut ty = NodeType::from_syn_item(ty);
                if ty.is_self() {
                    match self_name {
                        Some(name) => ty.replace_path(name),
                        None => {
                            assert(returns_self(item_fn@.sig));
                            vstd::pervasive::unreached()
                        },
                    }
                }
                ty
            },
            None => NodeType::Empty,
        };
        let block = block_of(self.build_block_statement(&item_fn.block, id));
        self.storage.add_node(NodeKind::Statement(Statement::Block(block.clone())), id);
        let generics = copy_texts(&item_fn.sig.generics);
        let attributes = extract_attrs(&item_fn.attrs);
        let function = Rc::new(
            Function {
                id,
                attributes,
                location: item_fn.at,
                name: item_fn.sig.name.clone(),
                visibility: Visibility::from_syn_visibility(item_fn.vis.as_str()),
                generics,
                parameters,
                returns: output,
                body: Some(block),
            },
        );
        self.store_definition(&Definition::Function(function.clone()), parent_id);
        assert(self.storage@ =~= old(self).storage@ + fn_log(item_fn@, function, parent_id));
        function
    }

    /// Builds a function of an `impl` block, where `Self` stands for `self_ty` without its spaces.
    pub fn build_function_from_impl_item_fn(
        &mut self,
        item_fn: &SrcImplFn,
        self_ty: &SrcType,
        id: u32,
    ) -> (r: Rc<Function>)
        requires
            fn_ok(item_fn@, true),
            old(self).id + fn_ids(item_fn@) <= u32::MAX,
        ensures
            is_fn(item_fn@, Some(no_spaces(self_ty@.text)), old(self).id as int, *r),
            advanced(*old(self), *final(self), fn_ids(item_fn@), fn_log(item_fn@, r, id)),
        decreases item_fn,
    {
        let self_name = without_spaces(self_ty.text.as_str());
        self.build_function_from_item_fn(&item_fn.item, Some(self_name), id)
    }

    /// Builds a type of an `impl` block.
    pub fn build_associated_type(&mut self, item_type: &SrcTypeAlias, parent_id: u32) -> (r: Rc<
        TypeAlias,
    >)
        requires
            old(self).id + 2 <= u32::MAX,
        ensures
            is_type_alias(item_type@, old(self).id as int, *r),
            advanced(
                *old(self),
                *final(self),
                2,
                stored_def(Definition::AssocType(r), parent_id),
            ),
    {
        let r = self.new_type_alias(item_type);
        self.store_definition(&Definition::AssocType(r.clone()), parent_id);
        assert(self.storage@ =~= old(self).storage@ + stored_def(
            Definition::AssocType(r),
            parent_id,
        ));
        r
    }

    /// Draws the ids of `type name = ty;`.
    fn new_type_alias(&mut self, item_type: &SrcTypeAlias) -> (r: Rc<TypeAlias>)
        requires
            old(self).id + 2 <= u32::MAX,
        ensures
            is_type_alias(item_type@, old(self).id as int, *r),
            advanced(*old(self), *final(self), 2, Seq::empty()),
    {
        let id: u32 = self.get_node_id();
        let ty = self.build_type(&item_type.ty, id);
        assert(self.storage@ =~= old(self).storage@ + Seq::<StoredNode>::empty());
        Rc::new(
            TypeAlias {
                id,
                location: item_type.at,
                name: item_type.name.clone(),
                visibility: Visibility::from_syn_visibility(item_type.vis.as_str()),
                ty,
            },
        )
    }

    /// Builds a static: its type, then its value.
    pub fn build_static_definition(
        &mut self,
        item_static: &SrcStatic,
        parent_id: u32,
    ) -> (r: Definition)
        requires
            item_ok(item_static@),
            old(self).id + item_ids(item_static@) <= u32::MAX,
        ensures
            is_item(item_static@, old(self).id as int, r),
            advanced(
                *old(self),
                *final(self),
                item_ids(item_static@),
                item_log(item_static@, r, parent_id),
            ),
        decreases item_static,
    {
        let id: u32 = self.get_node_id();
        let attributes = extract_attrs(&item_static.attrs);
        let ty = self.build_type(&item_static.ty, id);
        let value = self.build_expression(&item_static.expr, false, id);
        let def = Definition::Static(
            Rc::new(
                Static {
                    id,
                    attributes,
                    location: item_static.at,
                    name: item_static.name.clone(),
                    visibility: Visibility::from_syn_visibility(item_static.vis.as_str()),
                    mutable: item_static.mutable,
                    ty,
                    value,
                },
            ),
        );
        self.store_definition(&def, parent_id);
        assert(self.storage@ =~= old(self).storage@ + item_log(item_static@, def, parent_id));
        def
    }

    /// Builds the definitions among the items of a module.
    fn build_definitions(&mut self, items: &Vec<SrcItem>, id: u32) -> (r: Vec<Definition>)
        requires
            definitions_ok(items_view(items@)),
            old(self).id + definitions_ids(items_view(items@)) <= u32::MAX,
        ensures
            is_definitions(items_view(items@), old(self).id as int, r@),
            advanced(
                *old(self),
                *final(self),
                definitions_ids(items_view(items@)),
                definitions_log(items_view(items@), r@, id),
            ),
        decreases items,
    {
        let ghost s = items_view(items@);
        let mut r: Vec<Definition> = Vec::new();
        for i in 0..items.len()
            invariant
                s == items_view(items@),
                definitions_ok(s),
                old(self).id + definitions_ids(s) <= u32::MAX,
                is_definitions(s.take(i as int), old(self).id as int, r@),
                advanced(
                    *old(self),
                    *self,
                    definitions_ids(s.take(i as int)),
                    definitions_log(s.take(i as int), r@, id),
                ),
        {
            let ghost built = r@;
            proof {
                lemma_definitions_prefix(s, i + 1);
                assert(s.take(i + 1).drop_last() =~= s.take(i as int));
                assert(decreases_to!(items@ => items@[i as int]));
            }
            match &items[i] {
                SrcItem::Use(_) => {},
                item => {
                    let def = self.build_definition(item, id);
                    r.push(def);
                    assert(r@.drop_last() =~= built);
                },
            }
            assert(self.storage@ =~= old(self).storage@ + definitions_log(s.take(i + 1), r@, id));
        }
        assert(s.take(s.len() as int) =~= s);
        r
    }

    /// Builds the imports among the items of a module.
    fn build_imports(&mut self, items: &Vec<SrcItem>, id: u32) -> (r: Vec<Rc<Use>>)
        requires
            old(self).id + imports_ids(items_view(items@)) <= u32::MAX,
        ensures
            is_imports(items_view(items@), old(self).id as int, r@),
            advanced(
                *old(self),
                *final(self),
                imports_ids(items_view(items@)),
                imports_log(r@, id),
            ),
    {
        let ghost s = items_view(items@);
        let mut r: Vec<Rc<Use>> = Vec::new();
        assert(self.storage@ =~= old(self).storage@ + imports_log(r@, id));
        for i in 0..items.len()
            invariant
                s == items_view(items@),
                old(self).id + imports_ids(s) <= u32::MAX,
                is_imports(s.take(i as int), old(self).id as int, r@),
                advanced(
                    *old(self),
                    *self,
                    imports_ids(s.take(i as int)),
                    imports_log(r@, id),
                ),
        {
            let ghost built = r@;
            proof {
                lemma_definitions_prefix(s, i + 1);
                assert(s.take(i + 1).drop_last() =~= s.take(i as int));
            }
            match &items[i] {
                SrcItem::Use(u) => {
                    match self.build_use_directive(u, id) {
                        Directive::Use(x) => {
                            r.push(x);
                        },
                    }
                    assert(r@.drop_last() =~= built);
                },
                _ => {},
            }
            assert(self.storage@ =~= old(self).storage@ + imports_log(r@, id));
        }
        assert(s.take(s.len() as int) =~= s);
        r
    }

    /// Builds a module: its definitions, then its imports, where it is written out.
    pub fn build_mod_definition(&mut self, item_mod: &SrcMod, parent_id: u32) -> (r: Definition)
        requires
            item_ok(item_mod@),
            old(self).id + item_ids(item_mod@) <= u32::MAX,
        ensures
            is_item(item_mod@, old(self).id as int, r),
            advanced(
                *old(self),
                *final(self),
                item_ids(item_mod@),
                item_log(item_mod@, r, parent_id),
            ),
        decreases item_mod,
    {
        let id: u32 = self.get_node_id();
        let attributes = extract_attrs(&item_mod.attrs);
        let mut definitions: Option<Vec<Definition>> = None;
        let mut imports: Option<Vec<Rc<Use>>> = None;
        if let Some(items) = &item_mod.content {
            definitions = Some(self.build_definitions(items, id));
            imports = Some(self.build_imports(items, id));
        }
        let def = Definition::Module(
            Rc::new(
                Module {
                    id,
                    location: item_mod.at,
                    attributes,
                    name: item_mod.name.clone(),
                    visibility: Visibility::from_syn_visibility(item_mod.vis.as_str()),
                    definitions,
                    imports,
                },
            ),
        );
        self.store_definition(&def, parent_id);
        assert(self.storage@ =~= old(self).storage@ + item_log(item_mod@, def, parent_id));
        def
    }

    /// Builds what is kept as it is written.
    pub fn build_plane_definition(&mut self, tokens: &SrcTokens, parent_id: u32) -> (r: Definition)
        requires
            old(self).id < u32::MAX,
        ensures
            r matches Definition::Plane(x) && is_plane(tokens@, old(self).id as int, *x),
            advanced(*old(self), *final(self), 1, stored_def(r, parent_id)),
    {
        let id: u32 = self.get_node_id();
        let def = Definition::Plane(
            Rc::new(Plane { id, location: tokens.at, value: tokens.text.clone() }),
        );
        self.store_definition(&def, parent_id);
        assert(self.storage@ =~= old(self).storage@ + stored_def(def, parent_id));
        def
    }

    /// Builds a `use` item.
    pub fn build_use_directive(&mut self, use_directive: &SrcUse, parent_id: u32) -> (r: Directive)
        requires
            old(self).id < u32::MAX,
        ensures
            r matches Directive::Use(x) && is_use(use_directive@, old(self).id as int, *x),
            advanced(*old(self), *final(self), 1, use_log(r->Use_0, parent_id)),
    {
        let imported_types = use_tree_to_full_paths(&use_directive.tree, None);
        let id: u32 = self.get_node_id();
        let directive = Directive::Use(
            Rc::new(
                Use {
                    id,
                    location: use_directive.at,
                    visibility: Visibility::from_syn_visibility(use_directive.vis.as_str()),
                    path: use_directive.path.clone(),
                    imported_types,
                    target: Vec::new(),
                },
            ),
        );
        self.storage.add_node(NodeKind::Directive(directive.clone()), parent_id);
        assert(self.storage@ =~= old(self).storage@ + use_log(directive->Use_0, parent_id));
        directive
    }

    /// Builds `type name = ty;`.
    pub fn build_type_alias_definition(
        &mut self,
        item_type: &SrcTypeAlias,
        parent_id: u32,
    ) -> (r: Definition)
        requires
            old(self).id + item_ids(ItemV::TypeAlias(item_type@)) <= u32::MAX,
        ensures
            is_item(ItemV::TypeAlias(item_type@), old(self).id as int, r),
            advanced(
                *old(self),
                *final(self),
                item_ids(ItemV::TypeAlias(item_type@)),
                item_log(ItemV::TypeAlias(item_type@), r, parent_id),
            ),
    {
        let def = Definition::TypeAlias(self.new_type_alias(item_type));
        self.store_definition(&def, parent_id);
        assert(self.storage@ =~= old(self).storage@ + item_log(ItemV::TypeAlias(item_type@), def, parent_id));
        def
    }

    /// Builds a field of a union.
    pub fn build_field(&mut self, field: &SrcField, parent_id: u32) -> (r: Rc<Field>)
        requires
            old(self).id + 2 <= u32::MAX,
        ensures
            is_field(field@, old(self).id as int, *r),
            advanced(*old(self), *final(self), 2, fields_log(seq![r], parent_id)),
    {
        let id: u32 = self.get_node_id();
        let mutability = if field.mutable {
            Mutability::Mutable
        } else {
            Mutability::Constant
        };
        let ty = self.build_type(&field.ty, id);
        let r = Rc::new(
            Field {
                id,
                location: field.at,
                name: copy_opt(&field.name),
                visibility: Visibility::from_syn_visibility(field.vis.as_str()),
                mutability,
                ty,
            },
        );
        self.storage.add_node(NodeKind::Misc(Misc::Field(r.clone())), parent_id);
        assert(self.storage@ =~= old(self).storage@ + fields_log(seq![r], parent_id));
        r
    }

    /// Builds a union.
    pub fn build_union_definition(
        &mut self,
        item_union: &SrcUnion,
        parent_id: u32,
    ) -> (r: Definition)
        requires
            old(self).id + item_ids(item_union@) <= u32::MAX,
        ensures
            is_item(item_union@, old(self).id as int, r),
            advanced(
                *old(self),
                *final(self),
                item_ids(item_union@),
                item_log(item_union@, r, parent_id),
            ),
    {
        let id: u32 = self.get_node_id();
        let attributes = extract_attrs(&item_union.attrs);
        let mut fields: Vec<Rc<Field>> = Vec::new();
        let ghost s = fields_view(item_union.fields@);
        let ghost n = s.len();
        assert(self.storage@ =~= old(self).storage@ + fields_log(fields@, id));
        for i in 0..item_union.fields.len()
            invariant
                s == fields_view(item_union.fields@),
                n == s.len(),
                id == old(self).id,
                old(self).id + 1 + 2 * n <= u32::MAX,
                is_fields(s.take(i as int), id + 1, fields@),
                advanced(*old(self), *self, (1 + 2 * i) as nat, fields_log(fields@, id)),
        {
            let field = self.build_field(&item_union.fields[i], id);
            fields.push(field);
            assert(self.storage@ =~= old(self).storage@ + fields_log(fields@, id));
        }
        assert(s.take(s.len() as int) =~= s);
        let def = Definition::Union(
            Rc::new(
                Union {
                    id,
                    location: item_union.at,
                    attributes,
                    name: item_union.name.clone(),
                    visibility: Visibility::from_syn_visibility(item_union.vis.as_str()),
                    fields,
                },
            ),
        );
        self.store_definition(&def, parent_id);
        assert(self.storage@ =~= old(self).storage@ + item_log(item_union@, def, parent_id));
        def
    }

    /// Builds a constant of an `impl` block: its type, then its value.
    pub fn build_const_definition_for_impl_item_const(
        &mut self,
        item: &SrcConst,
        parent_id: u32,
    ) -> (r: Definition)
        requires
            expr_ok(item@.expr),
            old(self).id + const_ids(item@) <= u32::MAX,
        ensures
            r matches Definition::Const(x) && is_impl_const(item@, old(self).id as int, *x),
            advanced(
                *old(self),
                *final(self),
                const_ids(item@),
                impl_const_log(item@, r->Const_0, parent_id),
            ),
        decreases item,
    {
        let id: u32 = self.get_node_id();
        let type_ = self.build_type(&item.ty, id);
        let value = self.build_expression(&item.expr, false, id);
        let def = Definition::Const(
            Rc::new(
                Const {
                    id,
                    location: item.at,
                    name: item.name.clone(),
                    visibility: Visibility::from_syn_visibility(item.vis.as_str()),
                    type_,
                    value: Some(value),
                },
            ),
        );
        self.store_definition(&def, parent_id);
        assert(self.storage@ =~= old(self).storage@ + impl_const_log(
            item@,
            def->Const_0,
            parent_id,
        ));
        def
    }

    /// Builds a constant of a trait, which is as visible as the trait.
    pub fn build_const_definition_from_trait_item(
        &mut self,
        item: &SrcTraitConst,
        visibility: Visibility,
        parent_id: u32,
    ) -> (r: Definition)
        requires
            trait_item_ok(item@),
            old(self).id + trait_item_ids(item@) <= u32::MAX,
        ensures
            is_trait_item(item@, visibility, old(self).id as int, r),
            advanced(
                *old(self),
                *final(self),
                trait_item_ids(item@),
                trait_item_log(item@, r, parent_id),
            ),
        decreases item,
    {
        let id: u32 = self.get_node_id();
        let type_ = self.build_type(&item.ty, id);
        let value = self.build_opt_expression(&item.default, id);
        let def = Definition::Const(
            Rc::new(
                Const { id, location: item.at, name: item.name.clone(), visibility, type_, value },
            ),
        );
        self.store_definition(&def, parent_id);
        assert(self.storage@ =~= old(self).storage@ + trait_item_log(item@, def, parent_id));
        def
    }

    /// Builds a function that a trait declares. The first id drawn is the one its parameters are
    /// stored under; the function itself has the last.
    pub fn build_function_definition_for_trait_item_fn(
        &mut self,
        item: &SrcTraitFn,
        visibility: Visibility,
        parent_id: u32,
    ) -> (r: Definition)
        requires
            trait_item_ok(item@),
            old(self).id + trait_item_ids(item@) <= u32::MAX,
        ensures
            is_trait_item(item@, visibility, old(self).id as int, r),
            advanced(
                *old(self),
                *final(self),
                trait_item_ids(item@),
                trait_item_log(item@, r, parent_id),
            ),
    {
        let id: u32 = self.get_node_id();
        let parameters = self.build_parameters(&item.sig.inputs, id);
        let output = match &item.sig.output {
            Some(ty) => NodeType::from_syn_item(ty),
            None => NodeType::Empty,
        };
        let generics = copy_texts(&item.sig.generics);
        let attributes = extract_attrs(&item.attrs);
        let own: u32 = self.get_node_id();
        let def = Definition::Function(
            Rc::new(
                Function {
                    id: own,
                    attributes,
                    location: item.at,
                    name: item.sig.name.clone(),
                    visibility,
                    generics,
                    parameters,
                    returns: output,
                    body: None,
                },
            ),
        );
        self.store_definition(&def, parent_id);
        assert(self.storage@ =~= old(self).storage@ + trait_item_log(item@, def, parent_id));
        def
    }

    /// Builds a type that a trait declares. It is not stored.
    pub fn build_impl_trait_type(&mut self, at: Location, _parent_id: u32) -> (r: Definition)
        requires
            old(self).id < u32::MAX,
        ensures
            forall|vis: Visibility|
                #[trigger] is_trait_item(TraitItemV::Type { at }, vis, old(self).id as int, r),
            advanced(*old(self), *final(self), 1, Seq::empty()),
    {
        let id: u32 = self.get_node_id();
        assert(self.storage@ =~= old(self).storage@ + Seq::<StoredNode>::empty());
        Definition::Plane(Rc::new(Plane { id, location: at, value: "TraitItemType".to_owned() }))
    }

    /// Builds a macro call that stands in a trait.
    pub fn build_macro_definition_for_trait_item_macro(
        &mut self,
        item: &SrcMacro,
        parent_id: u32,
    ) -> (r: Definition)
        requires
            old(self).id < u32::MAX,
        ensures
            r matches Definition::Macro(x) && is_macro(item@, old(self).id as int, *x),
            advanced(*old(self), *final(self), 1, stored_def(r, parent_id)),
    {
        let def = self.new_macro(item);
        self.store_definition(&def, parent_id);
        assert(self.storage@ =~= old(self).storage@ + stored_def(def, parent_id));
        def
    }

    /// Builds a macro call that stands in an `impl` block.
    pub fn build_marco_definition_for_impl_item_macro(
        &mut self,
        item: &SrcMacro,
        parent_id: u32,
    ) -> (r: Definition)
        requires
            old(self).id < u32::MAX,
        ensures
            r matches Definition::Macro(x) && is_macro(item@, old(self).id as int, *x),
            advanced(*old(self), *final(self), 1, stored_def(r, parent_id)),
    {
        let def = self.new_macro(item);
        self.store_definition(&def, parent_id);
        assert(self.storage@ =~= old(self).storage@ + stored_def(def, parent_id));
        def
    }

    /// Builds one item of a trait.
    fn build_trait_item(&mut self, item: &SrcTraitItem, visibility: Visibility, id: u32) -> (r:
        Definition)
        requires
            trait_item_ok(item@),
            old(self).id + trait_item_ids(item@) <= u32::MAX,
        ensures
            is_trait_item(item@, visibility, old(self).id as int, r),
            advanced(
                *old(self),
                *final(self),
                trait_item_ids(item@),
                trait_item_log(item@, r, id),
            ),
        decreases item,
    {
        match item {
            SrcTraitItem::Const(item) => self.build_const_definition_from_trait_item(
                item,
                visibility,
                id,
            ),
            SrcTraitItem::Fn(item) => self.build_function_definition_for_trait_item_fn(
                item,
                visibility,
                id,
            ),
            SrcTraitItem::Type { at } => self.build_impl_trait_type(*at, id),
            SrcTraitItem::Macro(item) => self.build_macro_definition_for_trait_item_macro(item, id),
            SrcTraitItem::Verbatim(tokens) => self.build_plane_definition(tokens, id),
        }
    }

    /// Builds the items of a trait.
    fn build_trait_items(
        &mut self,
        items: &Vec<SrcTraitItem>,
        visibility: Visibility,
        id: u32,
    ) -> (r: Vec<Definition>)
        requires
            trait_items_ok(trait_items_view(items@)),
            old(self).id + trait_items_ids(trait_items_view(items@)) <= u32::MAX,
        ensures
            is_trait_items(trait_items_view(items@), visibility, old(self).id as int, r@),
            advanced(
                *old(self),
                *final(self),
                trait_items_ids(trait_items_view(items@)),
                trait_items_log(trait_items_view(items@), r@, id),
            ),
        decreases items,
    {
        let ghost s = trait_items_view(items@);
        let mut r: Vec<Definition> = Vec::new();
        for i in 0..items.len()
            invariant
                s == trait_items_view(items@),
                trait_items_ok(s),
                old(self).id + trait_items_ids(s) <= u32::MAX,
                is_trait_items(s.take(i as int), visibility, old(self).id as int, r@),
                advanced(
                    *old(self),
                    *self,
                    trait_items_ids(s.take(i as int)),
                    trait_items_log(s.take(i as int), r@, id),
                ),
        {
            let ghost built = r@;
            proof {
                lemma_trait_items_prefix(s, i + 1);
                assert(s.take(i + 1).drop_last() =~= s.take(i as int));
                assert(decreases_to!(items@ => items@[i as int]));
            }
            let def = self.build_trait_item(&items[i], visibility, id);
            r.push(def);
            proof {
                assert(r@.drop_last() =~= built);
                assert(self.storage@ =~= old(self).storage@ + trait_items_log(
                    s.take(i + 1),
                    r@,
                    id,
                ));
            }
        }
        assert(s.take(s.len() as int) =~= s);
        r
    }

    /// Builds a trait.
    pub fn build_trait_definition(
        &mut self,
        item_trait: &SrcTrait,
        parent_id: u32,
    ) -> (r: Definition)
        requires
            item_ok(item_trait@),
            old(self).id + item_ids(item_trait@) <= u32::MAX,
        ensures
            is_item(item_trait@, old(self).id as int, r),
            advanced(
                *old(self),
                *final(self),
                item_ids(item_trait@),
                item_log(item_trait@, r, parent_id),
            ),
        decreases item_trait,
    {
        let id: u32 = self.get_node_id();
        let attributes = extract_attrs(&item_trait.attrs);
        let visibility = Visibility::from_syn_visibility(item_trait.vis.as_str());
        let items = self.build_trait_items(&item_trait.items, visibility, id);
        let def = Definition::Trait(
            Rc::new(
                Trait {
                    id,
                    location: item_trait.at,
                    attributes,
                    name: item_trait.name.clone(),
                    visibility,
                    supertraits: item_trait.supertraits.clone(),
                    items,
                },
            ),
        );
        self.store_definition(&def, parent_id);
        assert(self.storage@ =~= old(self).storage@ + item_log(item_trait@, def, parent_id));
        def
    }

    /// Builds `trait name = bounds;`.
    pub fn build_trait_alias_definition(
        &mut self,
        item_trait_alias: &SrcTraitAlias,
        parent_id: u32,
    ) -> (r: Definition)
        requires
            old(self).id + item_ids(item_trait_alias@) <= u32::MAX,
        ensures
            is_item(item_trait_alias@, old(self).id as int, r),
            advanced(
                *old(self),
                *final(self),
                item_ids(item_trait_alias@),
                item_log(item_trait_alias@, r, parent_id),
            ),
    {
        let id: u32 = self.get_node_id();
        let attributes = extract_attrs(&item_trait_alias.attrs);
        let def = Definition::TraitAlias(
            Rc::new(
                TraitAlias {
                    id,
                    location: item_trait_alias.at,
                    attributes,
                    name: item_trait_alias.name.clone(),
                    visibility: Visibility::from_syn_visibility(item_trait_alias.vis.as_str()),
                    bounds: item_trait_alias.bounds.clone(),
                },
            ),
        );
        self.store_definition(&def, parent_id);
        assert(self.storage@ =~= old(self).storage@ + item_log(item_trait_alias@, def, parent_id));
        def
    }
}

} // verus!
