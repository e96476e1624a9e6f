//! What the rendered SDL text is, stated over sequences of characters.
//!
//! Each spec function gives the exact text one piece of the schema model
//! contributes; the executable renderer is proved to emit these texts.

use vstd::prelude::*;

use crate::index::lemma_index_of_unique_name;
use crate::index::spec_iface_names;
use crate::index::spec_index;
use crate::model::Field;
use crate::model::Type;
use crate::model::Value;

verus! {

/// Names beginning with two underscores are introspection-internal and are
/// kept out of the rendered SDL.
pub open spec fn is_internal_name(n: Seq<char>) -> bool {
    n.len() >= 2 && n[0] == '_' && n[1] == '_'
}

/// The text of one type reference: a `LIST` wrapper brackets its inner
/// reference, a `NON_NULL` wrapper appends `!`, any other kind with an
/// inner reference passes it through, a named reference is its name, and a
/// reference with neither inner reference nor name is empty.
pub open spec fn spec_format_type(t: Type) -> Seq<char>
    decreases t,
{
    if t.of_type is Some {
        let inner = spec_format_type(*t.of_type->0);
        if t.kind matches Some(k) && k@ == "LIST"@ {
            "["@ + inner + "]"@
        } else if t.kind matches Some(k) && k@ == "NON_NULL"@ {
            inner + "!"@
        } else {
            inner
        }
    } else if t.name is Some {
        t.name->0@
    } else {
        Seq::empty()
    }
}

/// One rendered argument.  Quirk, kept deliberately: the type shown beside
/// an argument is the enclosing field's own type reference, not the
/// argument's declared type; existing output depends on it.
pub open spec fn spec_one_arg(arg: Field, ret: Option<Type>) -> Seq<char> {
    if arg.name is Some && ret is Some {
        arg.name->0@ + ": "@ + spec_format_type(ret->0)
    } else {
        Seq::empty()
    }
}

/// The arguments of a field, separated by `, `.  A separator stands between
/// every two argument slots, even where a nameless slot renders as nothing.
pub open spec fn spec_args_text(args: Seq<Field>, ret: Option<Type>) -> Seq<char>
    decreases args.len(),
{
    if args.len() == 0 {
        Seq::empty()
    } else {
        spec_args_text(args.drop_last(), ret) + (if args.len() > 1 {
            ", "@
        } else {
            Seq::<char>::empty()
        }) + spec_one_arg(args.last(), ret)
    }
}

/// One field line: two spaces, the name, the parenthesised arguments when
/// any argument slot exists, then `: ` and the field's type.  A nameless
/// field contributes nothing.
pub open spec fn spec_field_line(f: Field) -> Seq<char> {
    if f.name is Some {
        "  "@ + f.name->0@ + (if f.args is Some && f.args->0@.len() > 0 {
            "("@ + spec_args_text(f.args->0@, f.field_type) + ")"@
        } else {
            Seq::<char>::empty()
        }) + (if f.field_type is Some {
            ": "@ + spec_format_type(f.field_type->0) + "\n"@
        } else {
            Seq::<char>::empty()
        })
    } else {
        Seq::empty()
    }
}

/// The body of an object or interface block: its field lines in order.
pub open spec fn spec_fields_text(fields: Seq<Field>) -> Seq<char>
    decreases fields.len(),
{
    if fields.len() == 0 {
        Seq::empty()
    } else {
        spec_fields_text(fields.drop_last()) + spec_field_line(fields.last())
    }
}

/// Interface names joined by ` & `.
pub open spec fn spec_join_amp(names: Seq<Seq<char>>) -> Seq<char>
    decreases names.len(),
{
    if names.len() == 0 {
        Seq::empty()
    } else {
        spec_join_amp(names.drop_last()) + (if names.len() > 1 {
            " & "@
        } else {
            Seq::<char>::empty()
        }) + names.last()
    }
}

/// Union members joined by ` | `; a separator stands between every two
/// member slots, a nameless member renders as nothing.
pub open spec fn spec_union_members(members: Seq<Type>) -> Seq<char>
    decreases members.len(),
{
    if members.len() == 0 {
        Seq::empty()
    } else {
        spec_union_members(members.drop_last()) + (if members.len() > 1 {
            " | "@
        } else {
            Seq::<char>::empty()
        }) + (if members.last().name is Some {
            members.last().name->0@
        } else {
            Seq::<char>::empty()
        })
    }
}

/// Enum member lines: two spaces, the member name, a newline.  Deprecated
/// members are still listed; nameless members contribute nothing.
pub open spec fn spec_enum_values_text(values: Seq<Value>) -> Seq<char>
    decreases values.len(),
{
    if values.len() == 0 {
        Seq::empty()
    } else {
        spec_enum_values_text(values.drop_last()) + (if values.last().name is Some {
            "  "@ + values.last().name->0@ + "\n"@
        } else {
            Seq::<char>::empty()
        })
    }
}

/// Input field lines: a line is emitted only where both name and type are
/// present (input fields carry no arguments).
pub open spec fn spec_input_fields_text(fields: Seq<Field>) -> Seq<char>
    decreases fields.len(),
{
    if fields.len() == 0 {
        Seq::empty()
    } else {
        spec_input_fields_text(fields.drop_last()) + (if fields.last().name is Some
            && fields.last().field_type is Some {
            "  "@ + fields.last().name->0@ + ": "@ + spec_format_type(fields.last().field_type->0)
                + "\n"@
        } else {
            Seq::<char>::empty()
        })
    }
}

/// An object block: `type <Name>`, an ` implements A & B` clause when the
/// implements-index has an entry for the name, then the field lines between
/// braces and a trailing blank line.
pub open spec fn spec_object_block(t: Type, idx: Map<Seq<char>, Seq<Seq<char>>>) -> Seq<char> {
    if t.name is Some {
        "type "@ + t.name->0@ + (if idx.dom().contains(t.name->0@) {
            " implements "@ + spec_join_amp(idx[t.name->0@])
        } else {
            Seq::<char>::empty()
        }) + " {\n"@ + (if t.fields is Some {
            spec_fields_text(t.fields->0@)
        } else {
            Seq::<char>::empty()
        }) + "}\n\n"@
    } else {
        Seq::empty()
    }
}

/// An interface block: like an object block, but headed `interface` and
/// never carrying an implements clause.
pub open spec fn spec_interface_block(t: Type) -> Seq<char> {
    if t.name is Some {
        "interface "@ + t.name->0@ + " {\n"@ + (if t.fields is Some {
            spec_fields_text(t.fields->0@)
        } else {
            Seq::<char>::empty()
        }) + "}\n\n"@
    } else {
        Seq::empty()
    }
}

/// An enum block: the member names between braces.
pub open spec fn spec_enum_block(t: Type) -> Seq<char> {
    if t.name is Some {
        "enum "@ + t.name->0@ + " {\n"@ + (if t.enum_values is Some {
            spec_enum_values_text(t.enum_values->0@)
        } else {
            Seq::<char>::empty()
        }) + "}\n\n"@
    } else {
        Seq::empty()
    }
}

/// A scalar declaration: one line.
pub open spec fn spec_scalar_block(t: Type) -> Seq<char> {
    if t.name is Some {
        "scalar "@ + t.name->0@ + "\n\n"@
    } else {
        Seq::empty()
    }
}

/// An input object block.
pub open spec fn spec_input_block(t: Type) -> Seq<char> {
    if t.name is Some {
        "input "@ + t.name->0@ + " {\n"@ + (if t.input_fields is Some {
            spec_input_fields_text(t.input_fields->0@)
        } else {
            Seq::<char>::empty()
        }) + "}\n\n"@
    } else {
        Seq::empty()
    }
}

/// A union declaration: one line listing the possible types.
pub open spec fn spec_union_block(t: Type) -> Seq<char> {
    if t.name is Some {
        "union "@ + t.name->0@ + " = "@ + (if t.possible_types is Some {
            spec_union_members(t.possible_types->0@)
        } else {
            Seq::<char>::empty()
        }) + "\n\n"@
    } else {
        Seq::empty()
    }
}

/// What one top-level type contributes to the SDL text: nothing for a
/// nameless type, an introspection-internal name, a missing kind or an
/// unrecognised kind; otherwise the block its kind calls for.
pub open spec fn spec_type_block(t: Type, idx: Map<Seq<char>, Seq<Seq<char>>>) -> Seq<char> {
    if t.name is None {
        Seq::empty()
    } else if is_internal_name(t.name->0@) {
        Seq::empty()
    } else if t.kind is None {
        Seq::empty()
    } else if t.kind->0@ == "OBJECT"@ {
        spec_object_block(t, idx)
    } else if t.kind->0@ == "ENUM"@ {
        spec_enum_block(t)
    } else if t.kind->0@ == "SCALAR"@ {
        spec_scalar_block(t)
    } else if t.kind->0@ == "INTERFACE"@ {
        spec_interface_block(t)
    } else if t.kind->0@ == "INPUT_OBJECT"@ {
        spec_input_block(t)
    } else if t.kind->0@ == "UNION"@ {
        spec_union_block(t)
    } else {
        Seq::empty()
    }
}

/// The whole rendered SDL: each top-level type's block, in input order.
pub open spec fn spec_render_types(types: Seq<Type>, idx: Map<Seq<char>, Seq<Seq<char>>>) -> Seq<
    char,
>
    decreases types.len(),
{
    if types.len() == 0 {
        Seq::empty()
    } else {
        spec_render_types(types.drop_last(), idx) + spec_type_block(types.last(), idx)
    }
}

/// The types that may appear in rendered output: those not carrying an
/// introspection-internal name.
pub open spec fn spec_visible_types(types: Seq<Type>) -> Seq<Type>
    decreases types.len(),
{
    if types.len() == 0 {
        Seq::empty()
    } else {
        spec_visible_types(types.drop_last()) + (if types.last().name matches Some(n)
            && is_internal_name(n@) {
            Seq::<Type>::empty()
        } else {
            seq![types.last()]
        })
    }
}

/// A type named with two leading underscores contributes no text at all.
pub proof fn lemma_internal_type_renders_nothing(t: Type, idx: Map<Seq<char>, Seq<Seq<char>>>)
    requires
        t.name matches Some(n) && is_internal_name(n@),
    ensures
        spec_type_block(t, idx) == Seq::<char>::empty(),
{
}

/// Rendering ignores introspection-internal types entirely: the SDL of a
/// type list equals the SDL of that list with every type whose name starts
/// with two underscores removed.
pub proof fn lemma_render_skips_internal_types(types: Seq<Type>, idx: Map<Seq<char>, Seq<Seq<char>>>)
    ensures
        spec_render_types(types, idx) == spec_render_types(spec_visible_types(types), idx),
    decreases types.len(),
{
    if types.len() > 0 {
        lemma_render_skips_internal_types(types.drop_last(), idx);
        let vis = spec_visible_types(types);
        if types.last().name matches Some(n) && is_internal_name(n@) {
            assert(vis =~= spec_visible_types(types.drop_last()));
        } else {
            assert(vis.drop_last() =~= spec_visible_types(types.drop_last()));
            assert(vis.last() == types.last());
        }
    }
}

/// An object type whose name no other type shares, and which lists at
/// least one named interface, renders a header carrying `implements` with
/// those interface names in declaration order.
pub proof fn lemma_object_header_implements(types: Seq<Type>, i: int)
    requires
        0 <= i < types.len(),
        types[i].kind matches Some(k) && k@ == "OBJECT"@,
        types[i].name matches Some(n) && !is_internal_name(n@),
        types[i].interfaces is Some,
        spec_iface_names(types[i].interfaces->0@).len() >= 1,
        forall|j: int|
            0 <= j < types.len() && j != i && types[j].name is Some ==> types[j].name->0@
                != types[i].name->0@,
    ensures
        spec_type_block(types[i], spec_index(types)) == "type "@ + types[i].name->0@
            + " implements "@ + spec_join_amp(spec_iface_names(types[i].interfaces->0@)) + " {\n"@
            + (if types[i].fields is Some {
                spec_fields_text(types[i].fields->0@)
            } else {
                Seq::<char>::empty()
            }) + "}\n\n"@,
{
    lemma_index_of_unique_name(types, i);
}

} // verus!
