//! The introspector: header configuration, the implements-index builder,
//! and the SDL renderer.

use vstd::prelude::*;
use vstd::string::StrSliceExecFns;
use vstd::string::StringExecFns;

use crate::assoc::assoc_map;
use crate::assoc::keys_unique;
use crate::assoc::lemma_assoc_map_push;
use crate::assoc::lemma_assoc_map_update;
use crate::error::GQLInspectorError;
use crate::index::spec_iface_names;
use crate::index::spec_index;
use crate::index::spec_index_add;
use crate::index::ImplementsIndex;
use crate::model::Field;
use crate::model::IntrospectionResult;
use crate::model::Type;
use crate::sdl::is_internal_name;
use crate::sdl::spec_args_text;
use crate::sdl::spec_enum_block;
use crate::sdl::spec_enum_values_text;
use crate::sdl::spec_field_line;
use crate::sdl::spec_fields_text;
use crate::sdl::spec_format_type;
use crate::sdl::spec_input_block;
use crate::sdl::spec_input_fields_text;
use crate::sdl::spec_interface_block;
use crate::sdl::spec_join_amp;
use crate::sdl::spec_object_block;
use crate::sdl::spec_render_types;
use crate::sdl::spec_scalar_block;
use crate::sdl::spec_type_block;
use crate::sdl::spec_union_block;
use crate::sdl::spec_union_members;

verus! {

/// Whether two string slices hold the same characters.
pub(crate) fn str_eq(a: &str, b: &str) -> (r: bool)
    ensures
        r == (a@ == b@),
{
    let x: String = a.to_owned();
    let y: String = b.to_owned();
    x == y
}

/// Whether a name is introspection-internal (starts with two underscores).
fn is_internal(s: &str) -> (r: bool)
    ensures
        r == is_internal_name(s@),
{
    s.unicode_len() >= 2 && s.get_char(0) == '_' && s.get_char(1) == '_'
}

/// The rendered SDL of a whole introspection result.
pub open spec fn spec_sdl(ir: IntrospectionResult) -> Seq<char> {
    spec_render_types(ir.schema.types@, spec_index(ir.schema.types@))
}

/// Retrieves a schema from a GraphQL endpoint and renders it as SDL text.
///
/// The surrounding application executes the introspection query over the
/// network and hands its outcome to `get_schema`; `build` then renders the
/// model, and the accumulated text is fetched with `schema_text` for
/// writing.
#[derive(Debug)]
pub struct GQLIntrospector {
    /// The headers to send with the introspection request, with pairwise
    /// distinct names.
    pub headers: Vec<(String, String)>,
    /// The introspection response, once one was supplied.
    pub introspection_result: Option<IntrospectionResult>,
    /// The SDL text accumulated so far.
    pub schema: String,
}

impl GQLIntrospector {
    /// The header names are pairwise distinct.
    pub open spec fn wf(self) -> bool {
        keys_unique(self.headers@)
    }

    /// The headers as the map they denote.
    pub open spec fn headers_map(self) -> Map<Seq<char>, Seq<char>> {
        assoc_map(self.headers@)
    }

    /// A fresh introspector: no headers, no introspection result, no text.
    pub fn new() -> (r: GQLIntrospector)
        ensures
            r.wf(),
            r.headers@.len() == 0,
            r.introspection_result is None,
            r.schema@ == Seq::<char>::empty(),
    {
        GQLIntrospector { headers: Vec::new(), introspection_result: None, schema: String::new() }
    }

    /// Records a header for the introspection request, replacing any header
    /// of the same name.
    #[verifier::loop_isolation(false)]
    pub fn add(self, key: &str, value: &str) -> (r: GQLIntrospector)
        requires
            self.wf(),
        ensures
            r.wf(),
            r.headers_map() == self.headers_map().insert(key@, value@),
            r.introspection_result == self.introspection_result,
            r.schema == self.schema,
    {
        let GQLIntrospector { mut headers, introspection_result, schema } = self;
        let entry = (key.to_owned(), value.to_owned());
        let mut i: usize = 0;
        while i < headers.len()
            invariant
                0 <= i <= headers@.len(),
                headers@ == self.headers@,
                keys_unique(headers@),
                entry.0@ == key@ && entry.1@ == value@,
                forall|j: int| 0 <= j < i ==> headers@[j].0@ != key@,
            decreases headers@.len() - i,
        {
            let found = str_eq(headers[i].0.as_str(), key);
            if found {
                proof {
                    lemma_assoc_map_update(headers@, i as int, entry);
                }
                let _old = headers.remove(i);
                headers.insert(i, entry);
                assert(headers@ =~= self.headers@.update(i as int, entry));
                return GQLIntrospector { headers, introspection_result, schema };
            }
            i += 1;
        }
        proof {
            lemma_assoc_map_push(headers@, entry);
        }
        headers.push(entry);
        GQLIntrospector { headers, introspection_result, schema }
    }

    /// Accepts the transport's answer to the introspection query: a
    /// successful response is stored for rendering, an error is surfaced to
    /// the caller as it is.
    pub fn get_schema<E>(self, response: Result<IntrospectionResult, E>) -> (r: Result<
        GQLIntrospector,
        E,
    >)
        ensures
            (response matches Ok(ir) ==> r matches Ok(b) && b.headers == self.headers
                && b.introspection_result == Some(ir) && b.schema == self.schema),
            (response matches Err(e) ==> r matches Err(e2) && e2 == e),
    {
        let GQLIntrospector { headers, introspection_result: _, schema } = self;
        match response {
            Ok(ir) => Ok(
                GQLIntrospector { headers, introspection_result: Some(ir), schema },
            ),
            Err(e) => Err(e),
        }
    }

    /// Builds the implements-index: one pass over every top-level type,
    /// recording for each named type the names of the interfaces it lists.
    /// Nameless types and nameless interface entries are skipped silently,
    /// so partially-broken introspection data still yields an index.
    #[verifier::loop_isolation(false)]
    pub fn build_implements_interface_map(introspection: &IntrospectionResult) -> (idx:
        ImplementsIndex)
        ensures
            idx.wf(),
            idx@ == spec_index(introspection.schema.types@),
    {
        let types = &introspection.schema.types;
        let mut idx = ImplementsIndex::new();
        let mut i: usize = 0;
        while i < types.len()
            invariant
                0 <= i <= types@.len(),
                idx.wf(),
                idx@ == spec_index(types@.take(i as int)),
            decreases types@.len() - i,
        {
            let t = &types[i];
            Self::index_one_type(&mut idx, t);
            proof {
                assert(types@.take(i as int + 1).drop_last() =~= types@.take(i as int));
                assert(types@.take(i as int + 1).last() == types@[i as int]);
            }
            i += 1;
        }
        proof {
            assert(types@.take(types@.len() as int) =~= types@);
        }
        idx
    }

    /// Extends the index with one type's interface names.
    #[verifier::loop_isolation(false)]
    fn index_one_type(idx: &mut ImplementsIndex, t: &Type)
        requires
            old(idx).wf(),
        ensures
            final(idx).wf(),
            final(idx)@ == spec_index_add(old(idx)@, *t),
    {
        let (name, interfaces) = match (&t.name, &t.interfaces) {
            (Some(n), Some(ifs)) => (n, ifs),
            _ => {
                return;
            },
        };
        let mut names: Vec<String> = Vec::new();
        let mut j: usize = 0;
        while j < interfaces.len()
            invariant
                0 <= j <= interfaces@.len(),
                names.deep_view() == spec_iface_names(interfaces@.take(j as int)),
            decreases interfaces@.len() - j,
        {
            match &interfaces[j].name {
                Some(inm) => {
                    names.push(inm.clone());
                },
                None => {},
            }
            proof {
                assert(interfaces@.take(j as int + 1).drop_last() =~= interfaces@.take(j as int));
                assert(interfaces@.take(j as int + 1).last() == interfaces@[j as int]);
                assert(names.deep_view() =~~= spec_iface_names(interfaces@.take(j as int + 1)));
            }
            j += 1;
        }
        proof {
            assert(interfaces@.take(interfaces@.len() as int) =~= interfaces@);
        }
        if names.len() == 0 {
            return;
        }
        let mut pos: usize = 0;
        while pos < idx.entries.len()
            invariant
                0 <= pos <= idx.entries@.len(),
                idx == old(idx),
                forall|j: int| 0 <= j < pos ==> idx.entries@[j].0@ != name@,
            decreases idx.entries@.len() - pos,
        {
            let found = str_eq(idx.entries[pos].0.as_str(), name.as_str());
            if found {
                let (k, mut v) = idx.entries.remove(pos);
                let ghost base = v@;
                let mut m: usize = 0;
                while m < names.len()
                    invariant
                        0 <= m <= names@.len(),
                        k == old(idx).entries@[pos as int].0,
                        v@ == base + names@.take(m as int),
                    decreases names@.len() - m,
                {
                    let x = names[m].clone();
                    v.push(x);
                    proof {
                        assert(v@ =~= base + names@.take(m as int + 1));
                    }
                    m += 1;
                }
                proof {
                    assert(names@.take(names@.len() as int) =~= names@);
                    assert forall|i: int| 0 <= i < v@.len() implies #[trigger] v.deep_view()[i]
                        == (old(idx).entries@[pos as int].1.deep_view() + names.deep_view())[i] by {
                        if i < base.len() {
                            assert(v@[i] == base[i]);
                            assert(old(idx).entries@[pos as int].1.deep_view()[i] == base[i]@);
                        } else {
                            assert(v@[i] == names@[i - base.len()]);
                            assert(names.deep_view()[i - base.len()] == names@[i - base.len()]@);
                        }
                    }
                    assert(v.deep_view() =~= old(idx).entries@[pos as int].1.deep_view()
                        + names.deep_view());
                }
                let entry = (k, v);
                proof {
                    lemma_assoc_map_update(old(idx).entries@, pos as int, entry);
                    crate::assoc::lemma_assoc_map_found(old(idx).entries@, pos as int);
                }
                idx.entries.insert(pos, entry);
                assert(idx.entries@ =~= old(idx).entries@.update(pos as int, entry));
                return;
            }
            pos += 1;
        }
        let entry = (name.clone(), names);
        proof {
            crate::assoc::lemma_assoc_map_absent(old(idx).entries@, name@);
            lemma_assoc_map_push(idx.entries@, entry);
            assert(Seq::<Seq<char>>::empty() + names.deep_view() =~= names.deep_view());
        }
        idx.entries.push(entry);
    }

    /// The SDL token for one type reference: `LIST` brackets its inner
    /// reference, `NON_NULL` appends `!`, any other kind with an inner
    /// reference passes it through, a named reference is its name, and a
    /// reference with neither is the empty string.
    pub fn format_type(t: &Type) -> (r: String)
        ensures
            r@ == spec_format_type(*t),
        decreases *t,
    {
        match &t.of_type {
            Some(inner) => {
                let s = Self::format_type(&**inner);
                match &t.kind {
                    Some(k) => {
                        if str_eq(k.as_str(), "LIST") {
                            let mut r = String::new();
                            r.append("[");
                            r.append(s.as_str());
                            r.append("]");
                            proof {
                                assert(r@ =~= spec_format_type(*t));
                            }
                            r
                        } else if str_eq(k.as_str(), "NON_NULL") {
                            let mut r = s;
                            r.append("!");
                            r
                        } else {
                            s
                        }
                    },
                    None => s,
                }
            },
            None => match &t.name {
                Some(n) => n.clone(),
                None => String::new(),
            },
        }
    }

    /// Appends one field line.  Quirk, kept deliberately: the type shown
    /// beside each argument is the enclosing field's own type reference,
    /// not the argument's declared type; existing output depends on it.
    #[verifier::loop_isolation(false)]
    fn write_field(sb: &mut String, field: &Field)
        ensures
            final(sb)@ == old(sb)@ + spec_field_line(*field),
    {
        let name = match &field.name {
            Some(n) => n,
            None => {
                proof {
                    assert(old(sb)@ + spec_field_line(*field) =~= old(sb)@);
                }
                return;
            },
        };
        sb.append("  ");
        sb.append(name.as_str());
        if let Some(args) = &field.args {
            if args.len() > 0 {
                sb.append("(");
                let ghost pre = sb@;
                proof {
                    assert(sb@ =~= pre + spec_args_text(args@.take(0), field.field_type));
                }
                let mut i: usize = 0;
                while i < args.len()
                    invariant
                        0 <= i <= args@.len(),
                        sb@ == pre + spec_args_text(args@.take(i as int), field.field_type),
                    decreases args@.len() - i,
                {
                    if i > 0 {
                        sb.append(", ");
                    }
                    match (&args[i].name, &field.field_type) {
                        (Some(arg_name), Some(ft)) => {
                            sb.append(arg_name.as_str());
                            sb.append(": ");
                            let ts = Self::format_type(ft);
                            sb.append(ts.as_str());
                        },
                        _ => {},
                    }
                    proof {
                        assert(args@.take(i as int + 1).drop_last() =~= args@.take(i as int));
                        assert(args@.take(i as int + 1).last() == args@[i as int]);
                        assert(sb@ =~= pre + spec_args_text(
                            args@.take(i as int + 1),
                            field.field_type,
                        ));
                    }
                    i += 1;
                }
                proof {
                    assert(args@.take(args@.len() as int) =~= args@);
                }
                sb.append(")");
            }
        }
        if let Some(ft) = &field.field_type {
            sb.append(": ");
            let ts = Self::format_type(ft);
            sb.append(ts.as_str());
            sb.append("\n");
        }
        proof {
            assert(sb@ =~= old(sb)@ + spec_field_line(*field));
        }
    }

    /// Appends an object type block: the `type` header, the implements
    /// clause when the index records one, and the field lines.
    #[verifier::loop_isolation(false)]
    pub fn write_object_type(
        sb: &mut String,
        t: &Type,
        implements_interface_map: &ImplementsIndex,
    )
        requires
            implements_interface_map.wf(),
        ensures
            final(sb)@ == old(sb)@ + spec_object_block(*t, implements_interface_map@),
    {
        let name = match &t.name {
            Some(n) => n,
            None => {
                proof {
                    assert(old(sb)@ + spec_object_block(*t, implements_interface_map@) =~= old(
                        sb,
                    )@);
                }
                return;
            },
        };
        sb.append("type ");
        sb.append(name.as_str());
        match implements_interface_map.get(name.as_str()) {
            Some(implements) => {
                sb.append(" implements ");
                let ghost dv = implements.deep_view();
                let ghost pre = sb@;
                proof {
                    assert(sb@ =~= pre + spec_join_amp(dv.take(0)));
                }
                let mut i: usize = 0;
                while i < implements.len()
                    invariant
                        0 <= i <= implements@.len(),
                        sb@ == pre + spec_join_amp(dv.take(i as int)),
                    decreases implements@.len() - i,
                {
                    if i > 0 {
                        sb.append(" & ");
                    }
                    sb.append(implements[i].as_str());
                    proof {
                        assert(implements.deep_view()[i as int] == implements@[i as int]@);
                        assert(dv.take(i as int + 1).drop_last() =~= dv.take(i as int));
                        assert(dv.take(i as int + 1).last() == dv[i as int]);
                        assert(sb@ =~= pre + spec_join_amp(dv.take(i as int + 1)));
                    }
                    i += 1;
                }
                proof {
                    assert(dv.take(dv.len() as int) =~= dv);
                }
            },
            None => {},
        }
        sb.append(" {\n");
        if let Some(fields) = &t.fields {
            let ghost pre = sb@;
            proof {
                assert(sb@ =~= pre + spec_fields_text(fields@.take(0)));
            }
            let mut i: usize = 0;
            while i < fields.len()
                invariant
                    0 <= i <= fields@.len(),
                    sb@ == pre + spec_fields_text(fields@.take(i as int)),
                decreases fields@.len() - i,
            {
                Self::write_field(sb, &fields[i]);
                proof {
                    assert(fields@.take(i as int + 1).drop_last() =~= fields@.take(i as int));
                    assert(fields@.take(i as int + 1).last() == fields@[i as int]);
                    assert(sb@ =~= pre + spec_fields_text(fields@.take(i as int + 1)));
                }
                i += 1;
            }
            proof {
                assert(fields@.take(fields@.len() as int) =~= fields@);
            }
        }
        sb.append("}\n\n");
        proof {
            assert(sb@ =~= old(sb)@ + spec_object_block(*t, implements_interface_map@));
        }
    }

    /// Appends an interface type block.
    #[verifier::loop_isolation(false)]
    pub fn write_interface_type(sb: &mut String, t: &Type)
        ensures
            final(sb)@ == old(sb)@ + spec_interface_block(*t),
    {
        let name = match &t.name {
            Some(n) => n,
            None => {
                proof {
                    assert(old(sb)@ + spec_interface_block(*t) =~= old(sb)@);
                }
                return;
            },
        };
        sb.append("interface ");
        sb.append(name.as_str());
        sb.append(" {\n");
        if let Some(fields) = &t.fields {
            let ghost pre = sb@;
            proof {
                assert(sb@ =~= pre + spec_fields_text(fields@.take(0)));
            }
            let mut i: usize = 0;
            while i < fields.len()
                invariant
                    0 <= i <= fields@.len(),
                    sb@ == pre + spec_fields_text(fields@.take(i as int)),
                decreases fields@.len() - i,
            {
                Self::write_field(sb, &fields[i]);
                proof {
                    assert(fields@.take(i as int + 1).drop_last() =~= fields@.take(i as int));
                    assert(fields@.take(i as int + 1).last() == fields@[i as int]);
                    assert(sb@ =~= pre + spec_fields_text(fields@.take(i as int + 1)));
                }
                i += 1;
            }
            proof {
                assert(fields@.take(fields@.len() as int) =~= fields@);
            }
        }
        sb.append("}\n\n");
        proof {
            assert(sb@ =~= old(sb)@ + spec_interface_block(*t));
        }
    }

    /// Appends an enum type block; deprecated members are still listed.
    #[verifier::loop_isolation(false)]
    pub fn write_enum_type(sb: &mut String, t: &Type)
        ensures
            final(sb)@ == old(sb)@ + spec_enum_block(*t),
    {
        let name = match &t.name {
            Some(n) => n,
            None => {
                proof {
                    assert(old(sb)@ + spec_enum_block(*t) =~= old(sb)@);
                }
                return;
            },
        };
        sb.append("enum ");
        sb.append(name.as_str());
        sb.append(" {\n");
        if let Some(enum_values) = &t.enum_values {
            let ghost pre = sb@;
            proof {
                assert(sb@ =~= pre + spec_enum_values_text(enum_values@.take(0)));
            }
            let mut i: usize = 0;
            while i < enum_values.len()
                invariant
                    0 <= i <= enum_values@.len(),
                    sb@ == pre + spec_enum_values_text(enum_values@.take(i as int)),
                decreases enum_values@.len() - i,
            {
                if let Some(value_name) = &enum_values[i].name {
                    sb.append("  ");
                    sb.append(value_name.as_str());
                    sb.append("\n");
                }
                proof {
                    assert(enum_values@.take(i as int + 1).drop_last() =~= enum_values@.take(
                        i as int,
                    ));
                    assert(enum_values@.take(i as int + 1).last() == enum_values@[i as int]);
                    assert(sb@ =~= pre + spec_enum_values_text(enum_values@.take(i as int + 1)));
                }
                i += 1;
            }
            proof {
                assert(enum_values@.take(enum_values@.len() as int) =~= enum_values@);
            }
        }
        sb.append("}\n\n");
        proof {
            assert(sb@ =~= old(sb)@ + spec_enum_block(*t));
        }
    }

    /// Appends a scalar declaration.
    pub fn write_scalar_type(sb: &mut String, t: &Type)
        ensures
            final(sb)@ == old(sb)@ + spec_scalar_block(*t),
    {
        let name = match &t.name {
            Some(n) => n,
            None => {
                proof {
                    assert(old(sb)@ + spec_scalar_block(*t) =~= old(sb)@);
                }
                return;
            },
        };
        sb.append("scalar ");
        sb.append(name.as_str());
        sb.append("\n\n");
        proof {
            assert(sb@ =~= old(sb)@ + spec_scalar_block(*t));
        }
    }

    /// Appends an input object block; an input field line needs both a
    /// name and a type, and input fields carry no arguments.
    #[verifier::loop_isolation(false)]
    pub fn write_input_object_type(sb: &mut String, t: &Type)
        ensures
            final(sb)@ == old(sb)@ + spec_input_block(*t),
    {
        let name = match &t.name {
            Some(n) => n,
            None => {
                proof {
                    assert(old(sb)@ + spec_input_block(*t) =~= old(sb)@);
                }
                return;
            },
        };
        sb.append("input ");
        sb.append(name.as_str());
        sb.append(" {\n");
        if let Some(input_fields) = &t.input_fields {
            let ghost pre = sb@;
            proof {
                assert(sb@ =~= pre + spec_input_fields_text(input_fields@.take(0)));
            }
            let mut i: usize = 0;
            while i < input_fields.len()
                invariant
                    0 <= i <= input_fields@.len(),
                    sb@ == pre + spec_input_fields_text(input_fields@.take(i as int)),
                decreases input_fields@.len() - i,
            {
                match (&input_fields[i].name, &input_fields[i].field_type) {
                    (Some(input_field_name), Some(field_type)) => {
                        sb.append("  ");
                        sb.append(input_field_name.as_str());
                        sb.append(": ");
                        let ts = Self::format_type(field_type);
                        sb.append(ts.as_str());
                        sb.append("\n");
                    },
                    _ => {},
                }
                proof {
                    assert(input_fields@.take(i as int + 1).drop_last() =~= input_fields@.take(
                        i as int,
                    ));
                    assert(input_fields@.take(i as int + 1).last() == input_fields@[i as int]);
                    assert(sb@ =~= pre + spec_input_fields_text(input_fields@.take(i as int + 1)));
                }
                i += 1;
            }
            proof {
                assert(input_fields@.take(input_fields@.len() as int) =~= input_fields@);
            }
        }
        sb.append("}\n\n");
        proof {
            assert(sb@ =~= old(sb)@ + spec_input_block(*t));
        }
    }

    /// Appends a union declaration.
    #[verifier::loop_isolation(false)]
    pub fn write_union_type(sb: &mut String, t: &Type)
        ensures
            final(sb)@ == old(sb)@ + spec_union_block(*t),
    {
        let name = match &t.name {
            Some(n) => n,
            None => {
                proof {
                    assert(old(sb)@ + spec_union_block(*t) =~= old(sb)@);
                }
                return;
            },
        };
        sb.append("union ");
        sb.append(name.as_str());
        sb.append(" = ");
        if let Some(possible_types) = &t.possible_types {
            let ghost pre = sb@;
            proof {
                assert(sb@ =~= pre + spec_union_members(possible_types@.take(0)));
            }
            let mut i: usize = 0;
            while i < possible_types.len()
                invariant
                    0 <= i <= possible_types@.len(),
                    sb@ == pre + spec_union_members(possible_types@.take(i as int)),
                decreases possible_types@.len() - i,
            {
                if i > 0 {
                    sb.append(" | ");
                }
                if let Some(possible_type_name) = &possible_types[i].name {
                    sb.append(possible_type_name.as_str());
                }
                proof {
                    assert(possible_types@.take(i as int + 1).drop_last() =~= possible_types@.take(
                        i as int,
                    ));
                    assert(possible_types@.take(i as int + 1).last() == possible_types@[i as int]);
                    assert(sb@ =~= pre + spec_union_members(possible_types@.take(i as int + 1)));
                }
                i += 1;
            }
            proof {
                assert(possible_types@.take(possible_types@.len() as int) =~= possible_types@);
            }
        }
        sb.append("\n\n");
        proof {
            assert(sb@ =~= old(sb)@ + spec_union_block(*t));
        }
    }

    /// Renders every top-level type of the stored introspection result, in
    /// input order, and appends the text to the accumulated schema.
    /// Rendering without an introspection result is the one whole-operation
    /// failure; a malformed type only degrades its own block.
    #[verifier::loop_isolation(false)]
    pub fn build(self) -> (r: Result<GQLIntrospector, GQLInspectorError>)
        ensures
            (self.introspection_result matches Some(ir) ==> (r matches Ok(b) && b.headers
                == self.headers && b.introspection_result == self.introspection_result && b.schema@
                == self.schema@ + spec_sdl(ir))),
            (self.introspection_result is None ==> (r matches Err(e) && e@
                == "Introspection result is missing"@)),
    {
        let GQLIntrospector { headers, introspection_result, schema } = self;
        let ir = match &introspection_result {
            Some(ir) => ir,
            None => {
                return Err(GQLInspectorError::new("Introspection result is missing"));
            },
        };
        let mut sb = schema;
        let implements_iface_map = Self::build_implements_interface_map(ir);
        let types = &ir.schema.types;
        let ghost start = sb@;
        proof {
            assert(sb@ =~= start + spec_render_types(types@.take(0), implements_iface_map@));
        }
        let mut i: usize = 0;
        while i < types.len()
            invariant
                0 <= i <= types@.len(),
                sb@ == start + spec_render_types(types@.take(i as int), implements_iface_map@),
            decreases types@.len() - i,
        {
            let t = &types[i];
            let ghost pre = sb@;
            if let Some(name) = &t.name {
                if !is_internal(name.as_str()) {
                    if let Some(kind) = &t.kind {
                        if str_eq(kind.as_str(), "OBJECT") {
                            Self::write_object_type(&mut sb, t, &implements_iface_map);
                        } else if str_eq(kind.as_str(), "ENUM") {
                            Self::write_enum_type(&mut sb, t);
                        } else if str_eq(kind.as_str(), "SCALAR") {
                            Self::write_scalar_type(&mut sb, t);
                        } else if str_eq(kind.as_str(), "INTERFACE") {
                            Self::write_interface_type(&mut sb, t);
                        } else if str_eq(kind.as_str(), "INPUT_OBJECT") {
                            Self::write_input_object_type(&mut sb, t);
                        } else if str_eq(kind.as_str(), "UNION") {
                            Self::write_union_type(&mut sb, t);
                        }
                        // an unrecognised kind only skips this type
                    }
                }
            }
            proof {
                assert(sb@ =~= pre + spec_type_block(types@[i as int], implements_iface_map@));
                assert(types@.take(i as int + 1).drop_last() =~= types@.take(i as int));
                assert(types@.take(i as int + 1).last() == types@[i as int]);
            }
            i += 1;
        }
        proof {
            assert(types@.take(types@.len() as int) =~= types@);
        }
        Ok(GQLIntrospector { headers, introspection_result, schema: sb })
    }

    /// The accumulated SDL text, for the file-write step; handing out an
    /// empty schema is refused rather than written.
    pub fn schema_text(&self) -> (r: Result<String, GQLInspectorError>)
        ensures
            self.schema@.len() > 0 ==> (r matches Ok(s) && s@ == self.schema@),
            self.schema@.len() == 0 ==> (r matches Err(e) && e@
                == "No introspection result available to write"@),
    {
        if self.schema.as_str().unicode_len() == 0 {
            Err(GQLInspectorError::new("No introspection result available to write"))
        } else {
            Ok(self.schema.clone())
        }
    }
}

/// The SDL text a successful `build` appends is a function of the schema
/// model alone: two introspectors holding the same accumulated text and the
/// same introspection result build byte-identical schema text.
pub proof fn lemma_build_deterministic(a: GQLIntrospector, b: GQLIntrospector)
    requires
        a.schema@ == b.schema@,
        a.introspection_result == b.introspection_result,
        a.introspection_result is Some,
    ensures
        a.schema@ + spec_sdl(a.introspection_result->0) == b.schema@ + spec_sdl(
            b.introspection_result->0,
        ),
{
}

} // verus!
