//! The emitter: serializes the registry into target declarations, walking
//! structs and enums in reverse discovery order so that a definition stands
//! before every type that refers to it.

use vstd::prelude::*;
use crate::json::Json;
use crate::parser::{
    files_view, spec_parse_file, spec_parse_item, Parser, ParserModel, spec_lookup,
    spec_parse_object,
};
use crate::schema::{Array, CompileError, CompileFailure, EnumDefView, EnumOption, EnumValue,
    FailView, Item, Property, StructDefView};
use crate::text::{dec_int, push_dec_i64};

verus! {

/// The whitespace that is stripped from titles to form identifiers.
pub open spec fn is_ws(c: char) -> bool {
    c == ' ' || c == '\t' || c == '\n' || c == '\r'
}

/// `s` with its whitespace removed.
pub open spec fn strip_ws(s: Seq<char>) -> Seq<char>
    decreases s.len(),
{
    if s.len() == 0 {
        Seq::empty()
    } else if is_ws(s.last()) {
        strip_ws(s.drop_last())
    } else {
        strip_ws(s.drop_last()).push(s.last())
    }
}

/// Appends `s`, with its whitespace removed, to `out`.
fn push_stripped(out: &mut String, s: &str)
    ensures
        final(out)@ == old(out)@ + strip_ws(s@),
{
    let len = s.unicode_len();
    let mut i: usize = 0;
    assert(s@.take(0) =~= Seq::<char>::empty());
    assert(out@ =~= old(out)@ + strip_ws(s@.take(0)));
    while i < len
        invariant
            i <= len,
            len == s@.len(),
            out@ == old(out)@ + strip_ws(s@.take(i as int)),
        decreases len - i,
    {
        let c = s.get_char(i);
        proof {
            assert(s@.take(i as int + 1).drop_last() =~= s@.take(i as int));
            assert(s@.take(i as int + 1).last() == s@[i as int]);
        }
        if !(c == ' ' || c == '\t' || c == '\n' || c == '\r') {
            let piece = s.substring_char(i, i + 1);
            assert(piece@ =~= seq![s@[i as int]]);
            out.append(piece);
            assert(out@ =~= old(out)@ + strip_ws(s@.take(i as int + 1)));
        }
        i = i + 1;
    }
    assert(s@.take(len as int) =~= s@);
}

/// The type expression a field's item is emitted as: the referenced
/// definition's whitespace-stripped title for struct and enum references,
/// a fixed-length sequence type when the array bounds agree, a
/// variable-length one otherwise, the matching scalar for primitives, and
/// an opaque value type for the extension slot and for open-ended nodes
/// (those are also flagged by [`Parser::diagnostics`]). A handle that
/// points outside the registry falls back to a bare `unknown`; the
/// normalizer never issues one.
pub open spec fn spec_item_name(
    structs: Seq<StructDefView>,
    enums: Seq<EnumDefView>,
    item: Item,
) -> Seq<char>
    decreases item,
{
    match item {
        Item::Struct(h) => if h < structs.len() {
            strip_ws(structs[h as int].title@)
        } else {
            "unknown"@
        },
        Item::Enum(h) => if h < enums.len() {
            match enums[h as int].title {
                Some(t) => strip_ws(t@),
                None => "Placeholder"@,
            }
        } else {
            "unknown"@
        },
        Item::Array(a) => match a.max_items {
            Some(mx) => if mx == a.min_items {
                "["@ + spec_item_name(structs, enums, *a.item_type) + "; "@ + dec_int(mx as int)
                    + "]"@
            } else {
                "Vec<"@ + spec_item_name(structs, enums, *a.item_type) + ">"@
            },
            None => "Vec<"@ + spec_item_name(structs, enums, *a.item_type) + ">"@,
        },
        Item::Integer(_) => "i64"@,
        Item::Number => "f32"@,
        Item::String => "String"@,
        Item::Boolean => "bool"@,
        Item::Extension => "kjson::Value"@,
        Item::Unknown => "kjson::Value"@,
    }
}

/// One emitted field: its doc line when a description exists, then its
/// name and type expression.
pub open spec fn spec_field_line(
    structs: Seq<StructDefView>,
    enums: Seq<EnumDefView>,
    p: Property,
) -> Seq<char> {
    (match p.description {
        Some(d) => "    /// "@ + d@ + "\n"@,
        None => Seq::<char>::empty(),
    }) + "    "@ + p.title@ + ": "@ + spec_item_name(structs, enums, p.item) + ",\n"@
}

/// The first `k` fields of a struct, in property order.
pub open spec fn spec_field_lines(
    structs: Seq<StructDefView>,
    enums: Seq<EnumDefView>,
    props: Seq<Property>,
    k: nat,
) -> Seq<char>
    decreases k,
{
    if k == 0 {
        Seq::empty()
    } else {
        spec_field_lines(structs, enums, props, (k - 1) as nat) + spec_field_line(
            structs,
            enums,
            props[k - 1],
        )
    }
}

/// One emitted struct declaration.
pub open spec fn spec_struct_decl(
    structs: Seq<StructDefView>,
    enums: Seq<EnumDefView>,
    d: StructDefView,
) -> Seq<char> {
    (match d.description {
        Some(desc) => "/// "@ + desc@ + "\n"@,
        None => Seq::<char>::empty(),
    }) + "pub struct "@ + strip_ws(d.title@) + " {\n"@ + spec_field_lines(
        structs,
        enums,
        d.properties,
        d.properties.len(),
    ) + "}\n\n"@
}

/// The first `k` struct declarations of the emission: the registry walked
/// from its most recent definition backwards.
pub open spec fn spec_struct_decls(
    structs: Seq<StructDefView>,
    enums: Seq<EnumDefView>,
    k: nat,
) -> Seq<char>
    decreases k,
{
    if k == 0 {
        Seq::empty()
    } else {
        spec_struct_decls(structs, enums, (k - 1) as nat) + spec_struct_decl(
            structs,
            enums,
            structs[structs.len() - k],
        )
    }
}

/// The literal text of one enumeration constant.
pub open spec fn spec_enum_value_text(v: EnumValue) -> Seq<char> {
    match v {
        EnumValue::Integer(n) => dec_int(n as int),
        EnumValue::String(s) => "\""@ + s@ + "\""@,
        EnumValue::Number(t) => t@,
    }
}

/// One emitted enumeration option: its doc line when a description
/// exists, then its name (a placeholder when the branch had none) and its
/// constant.
pub open spec fn spec_option_line(o: EnumOption) -> Seq<char> {
    (match o.description {
        Some(d) => "    /// "@ + d@ + "\n"@,
        None => Seq::<char>::empty(),
    }) + "    "@ + (match o.name {
        Some(nm) => strip_ws(nm@),
        None => "Placeholder"@,
    }) + " = "@ + spec_enum_value_text(o.value) + ",\n"@
}

/// The first `k` options of an enumeration, in option order.
pub open spec fn spec_option_lines(options: Seq<EnumOption>, k: nat) -> Seq<char>
    decreases k,
{
    if k == 0 {
        Seq::empty()
    } else {
        spec_option_lines(options, (k - 1) as nat) + spec_option_line(options[k - 1])
    }
}

/// One emitted enumeration declaration.
pub open spec fn spec_enum_decl(d: EnumDefView) -> Seq<char> {
    (match d.description {
        Some(desc) => "/// "@ + desc@ + "\n"@,
        None => Seq::<char>::empty(),
    }) + "pub enum "@ + (match d.title {
        Some(t) => strip_ws(t@),
        None => "Placeholder"@,
    }) + " {\n"@ + spec_option_lines(d.options, d.options.len()) + "}\n\n"@
}

/// The first `k` enum declarations of the emission, most recent first.
pub open spec fn spec_enum_decls(enums: Seq<EnumDefView>, k: nat) -> Seq<char>
    decreases k,
{
    if k == 0 {
        Seq::empty()
    } else {
        spec_enum_decls(enums, (k - 1) as nat) + spec_enum_decl(enums[enums.len() - k])
    }
}

/// The whole emitted artifact: a header, then every struct and every enum
/// declaration in reverse discovery order.
pub open spec fn spec_output(m: ParserModel) -> Seq<char> {
    "use kjson::Value;\n"@ + spec_struct_decls(m.structs, m.enums, m.structs.len())
        + spec_enum_decls(m.enums, m.enums.len())
}

/// Whether a field's type is the open passthrough slot or an open-ended
/// node: both are emitted as an opaque value type, each with a
/// non-fatal diagnostic.
pub open spec fn spec_opaque_item(item: Item) -> bool {
    item is Extension || item is Unknown
}

/// The diagnostics for the first `k` fields of one struct: one line per
/// opaque-typed field, naming the struct and the field.
pub open spec fn spec_struct_diags(d: StructDefView, k: nat) -> Seq<Seq<char>>
    decreases k,
{
    if k == 0 {
        Seq::empty()
    } else {
        spec_struct_diags(d, (k - 1) as nat) + (if spec_opaque_item(d.properties[k - 1].item) {
            seq![
                strip_ws(d.title@) + "."@ + d.properties[k - 1].title@
                    + ": open-ended value emitted as an opaque type"@,
            ]
        } else {
            Seq::empty()
        })
    }
}

/// The diagnostics for the first `k` registered structs, in discovery
/// order.
pub open spec fn spec_diagnostics(structs: Seq<StructDefView>, k: nat) -> Seq<Seq<char>>
    decreases k,
{
    if k == 0 {
        Seq::empty()
    } else {
        spec_diagnostics(structs, (k - 1) as nat) + spec_struct_diags(
            structs[k - 1],
            structs[k - 1].properties.len(),
        )
    }
}

impl Parser {
    /// Appends the type expression of `item` to `out`.
    fn push_item_name(&self, item: &Item, out: &mut String)
        ensures
            final(out)@ == old(out)@ + spec_item_name(
                self.model().structs,
                self.model().enums,
                *item,
            ),
        decreases item,
    {
        match item {
            Item::Struct(h) => {
                if *h < self.structs.len() {
                    assert(self.model().structs[*h as int].title == self.structs@[*h as int].title);
                    push_stripped(out, self.structs[*h].title.as_str());
                } else {
                    out.append("unknown");
                }
            },
            Item::Enum(h) => {
                if *h < self.enums.len() {
                    assert(self.model().enums[*h as int].title == self.enums@[*h as int].title);
                    match &self.enums[*h].title {
                        Some(t) => push_stripped(out, t.as_str()),
                        None => out.append("Placeholder"),
                    }
                } else {
                    out.append("unknown");
                }
            },
            Item::Array(a) => {
                let fixed: Option<i64> = match a.max_items {
                    Some(mx) => if mx == a.min_items {
                        Some(mx)
                    } else {
                        None
                    },
                    None => None,
                };
                match fixed {
                    Some(mx) => {
                        out.append("[");
                        self.push_item_name(&a.item_type, out);
                        out.append("; ");
                        push_dec_i64(out, mx);
                        out.append("]");
                        assert(out@ =~= old(out)@ + spec_item_name(
                            self.model().structs,
                            self.model().enums,
                            *item,
                        ));
                    },
                    None => {
                        out.append("Vec<");
                        self.push_item_name(&a.item_type, out);
                        out.append(">");
                        assert(out@ =~= old(out)@ + spec_item_name(
                            self.model().structs,
                            self.model().enums,
                            *item,
                        ));
                    },
                }
            },
            Item::Integer(_) => out.append("i64"),
            Item::Number => out.append("f32"),
            Item::String => out.append("String"),
            Item::Boolean => out.append("bool"),
            Item::Extension => out.append("kjson::Value"),
            Item::Unknown => out.append("kjson::Value"),
        }
    }

    /// The type expression a field's item is emitted as.
    pub fn item_name(&self, item: &Item) -> (r: String)
        ensures
            r@ == spec_item_name(self.model().structs, self.model().enums, *item),
    {
        let mut out = String::new();
        self.push_item_name(item, &mut out);
        assert(out@ =~= spec_item_name(self.model().structs, self.model().enums, *item));
        out
    }

    /// Appends one field of a struct.
    fn push_field(&self, p: &Property, out: &mut String)
        ensures
            final(out)@ == old(out)@ + spec_field_line(
                self.model().structs,
                self.model().enums,
                *p,
            ),
    {
        match &p.description {
            Some(d) => {
                out.append("    /// ");
                out.append(d.as_str());
                out.append("\n");
            },
            None => {},
        }
        out.append("    ");
        out.append(p.title.as_str());
        out.append(": ");
        self.push_item_name(&p.item, out);
        out.append(",\n");
        assert(out@ =~= old(out)@ + spec_field_line(
            self.model().structs,
            self.model().enums,
            *p,
        ));
    }

    /// Appends one struct declaration.
    fn push_struct_decl(&self, idx: usize, output: &mut String)
        requires
            idx < self.structs@.len(),
        ensures
            final(output)@ == old(output)@ + spec_struct_decl(
                self.model().structs,
                self.model().enums,
                self.model().structs[idx as int],
            ),
    {
        let ghost structs = self.model().structs;
        let ghost enums = self.model().enums;
        let d = &self.structs[idx];
        assert(structs[idx as int] == self.structs@[idx as int]@);
        match &d.description {
            Some(desc) => {
                output.append("/// ");
                output.append(desc.as_str());
                output.append("\n");
            },
            None => {},
        }
        output.append("pub struct ");
        push_stripped(output, d.title.as_str());
        output.append(" {\n");
        let np = d.properties.len();
        let mut f: usize = 0;
        while f < np
            invariant
                f <= np,
                np == d.properties@.len(),
                structs == self.model().structs,
                enums == self.model().enums,
                d == &self.structs[idx as int],
                idx < self.structs@.len(),
                structs[idx as int] == self.structs@[idx as int]@,
                output@ == old(output)@ + (match structs[idx as int].description {
                    Some(desc) => "/// "@ + desc@ + "\n"@,
                    None => Seq::<char>::empty(),
                }) + "pub struct "@ + strip_ws(structs[idx as int].title@) + " {\n"@
                    + spec_field_lines(structs, enums, structs[idx as int].properties, f as nat),
            decreases np - f,
        {
            assert(structs[idx as int].properties[f as int] == d.properties@[f as int]);
            self.push_field(&d.properties[f], output);
            f = f + 1;
        }
        output.append("}\n\n");
        proof {
            assert(structs[idx as int].properties.len() == np);
            assert(output@ =~= old(output)@ + spec_struct_decl(
                structs,
                enums,
                structs[idx as int],
            ));
        }
    }

    /// Appends one enumeration option.
    #[verifier::rlimit(50)]
    #[verifier::spinoff_prover]
    fn push_option(&self, o: &EnumOption, output: &mut String)
        ensures
            final(output)@ == old(output)@ + spec_option_line(*o),
    {
        match &o.description {
            Some(desc) => {
                output.append("    /// ");
                output.append(desc.as_str());
                output.append("\n");
            },
            None => {},
        }
        output.append("    ");
        match &o.name {
            Some(nm) => push_stripped(output, nm.as_str()),
            None => output.append("Placeholder"),
        }
        output.append(" = ");
        match &o.value {
            EnumValue::Integer(n) => push_dec_i64(output, *n),
            EnumValue::String(s) => {
                output.append("\"");
                output.append(s.as_str());
                output.append("\"");
            },
            EnumValue::Number(t) => output.append(t.as_str()),
        }
        output.append(",\n");
        assert(output@ =~= old(output)@ + spec_option_line(*o));
    }

    /// Appends one enumeration declaration.
    #[verifier::rlimit(50)]
    #[verifier::spinoff_prover]
    fn push_enum_decl(&self, idx: usize, output: &mut String)
        requires
            idx < self.enums@.len(),
        ensures
            final(output)@ == old(output)@ + spec_enum_decl(self.model().enums[idx as int]),
    {
        let ghost enums = self.model().enums;
        let d = &self.enums[idx];
        assert(enums[idx as int] == self.enums@[idx as int]@);
        match &d.description {
            Some(desc) => {
                output.append("/// ");
                output.append(desc.as_str());
                output.append("\n");
            },
            None => {},
        }
        output.append("pub enum ");
        match &d.title {
            Some(t) => push_stripped(output, t.as_str()),
            None => output.append("Placeholder"),
        }
        output.append(" {\n");
        let no = d.options.len();
        let mut f: usize = 0;
        while f < no
            invariant
                f <= no,
                no == d.options@.len(),
                d == &self.enums[idx as int],
                idx < self.enums@.len(),
                enums == self.model().enums,
                enums[idx as int] == self.enums@[idx as int]@,
                output@ == old(output)@ + (match enums[idx as int].description {
                    Some(desc) => "/// "@ + desc@ + "\n"@,
                    None => Seq::<char>::empty(),
                }) + "pub enum "@ + (match enums[idx as int].title {
                    Some(t) => strip_ws(t@),
                    None => "Placeholder"@,
                }) + " {\n"@ + spec_option_lines(enums[idx as int].options, f as nat),
            decreases no - f,
        {
            assert(enums[idx as int].options[f as int] == d.options@[f as int]);
            self.push_option(&d.options[f], output);
            f = f + 1;
        }
        output.append("}\n\n");
        proof {
            assert(enums[idx as int].options.len() == no);
            assert(output@ =~= old(output)@ + spec_enum_decl(enums[idx as int]));
        }
    }

    /// The non-fatal diagnostics that accompany an emission: one line for
    /// each field whose type is open-ended and stands as an opaque value
    /// type in the output. Emission itself never aborts on such a field.
    pub fn diagnostics(&self) -> (r: Vec<String>)
        ensures
            r.deep_view() == spec_diagnostics(
                self.model().structs,
                self.model().structs.len(),
            ),
    {
        let ghost structs = self.model().structs;
        let mut out: Vec<String> = Vec::new();
        let ns = self.structs.len();
        let mut k: usize = 0;
        assert(out.deep_view() =~= spec_diagnostics(structs, 0));
        while k < ns
            invariant
                k <= ns,
                ns == self.structs@.len(),
                structs == self.model().structs,
                structs.len() == ns,
                out.deep_view() == spec_diagnostics(structs, k as nat),
            decreases ns - k,
        {
            let d = &self.structs[k];
            assert(structs[k as int] == self.structs@[k as int]@);
            let np = d.properties.len();
            let mut f: usize = 0;
            while f < np
                invariant
                    f <= np,
                    np == d.properties@.len(),
                    k < self.structs@.len(),
                    d == &self.structs[k as int],
                    structs == self.model().structs,
                    structs[k as int] == self.structs@[k as int]@,
                    out.deep_view() == spec_diagnostics(structs, k as nat) + spec_struct_diags(
                        structs[k as int],
                        f as nat,
                    ),
                decreases np - f,
            {
                assert(structs[k as int].properties[f as int] == d.properties@[f as int]);
                let opaque = match &d.properties[f].item {
                    Item::Extension => true,
                    Item::Unknown => true,
                    _ => false,
                };
                if opaque {
                    let mut line = String::new();
                    push_stripped(&mut line, d.title.as_str());
                    line.append(".");
                    line.append(d.properties[f].title.as_str());
                    line.append(": open-ended value emitted as an opaque type");
                    let ghost old_deep = out.deep_view();
                    let ghost lv = line@;
                    out.push(line);
                    proof {
                        assert(out.deep_view() =~= old_deep + seq![lv]);
                        assert(lv =~= strip_ws(structs[k as int].title@) + "."@
                            + structs[k as int].properties[f as int].title@
                            + ": open-ended value emitted as an opaque type"@);
                        assert(out.deep_view() =~= spec_diagnostics(structs, k as nat)
                            + spec_struct_diags(structs[k as int], (f + 1) as nat));
                    }
                }
                f = f + 1;
            }
            proof {
                assert(structs[k as int].properties.len() == np);
            }
            k = k + 1;
        }
        out
    }

    /// Serializes every registered struct and enum, in reverse discovery
    /// order, onto the end of `output`.
    pub fn write_to_string(&self, output: &mut String)
        ensures
            final(output)@ == old(output)@ + spec_output(self.model()),
    {
        let ghost structs = self.model().structs;
        let ghost enums = self.model().enums;
        output.append("use kjson::Value;\n");
        let ns = self.structs.len();
        let mut k: usize = 0;
        assert(output@ =~= old(output)@ + "use kjson::Value;\n"@ + spec_struct_decls(
            structs,
            enums,
            0,
        ));
        while k < ns
            invariant
                k <= ns,
                ns == self.structs@.len(),
                structs == self.model().structs,
                enums == self.model().enums,
                structs.len() == ns,
                output@ == old(output)@ + "use kjson::Value;\n"@ + spec_struct_decls(
                    structs,
                    enums,
                    k as nat,
                ),
            decreases ns - k,
        {
            let idx = ns - 1 - k;
            self.push_struct_decl(idx, output);
            proof {
                assert(structs.len() - (k + 1) == idx);
                assert(output@ =~= old(output)@ + "use kjson::Value;\n"@ + spec_struct_decls(
                    structs,
                    enums,
                    (k + 1) as nat,
                ));
            }
            k = k + 1;
        }
        let ne = self.enums.len();
        let ghost out_mid = output@;
        let mut k2: usize = 0;
        while k2 < ne
            invariant
                k2 <= ne,
                ne == self.enums@.len(),
                structs == self.model().structs,
                enums == self.model().enums,
                enums.len() == ne,
                output@ == out_mid + spec_enum_decls(enums, k2 as nat),
            decreases ne - k2,
        {
            let idx = ne - 1 - k2;
            self.push_enum_decl(idx, output);
            proof {
                assert(enums.len() - (k2 + 1) == idx);
                assert(output@ =~= out_mid + spec_enum_decls(enums, (k2 + 1) as nat));
            }
            k2 = k2 + 1;
        }
        proof {
            assert(output@ =~= old(output)@ + spec_output(self.model()));
        }
    }
}

/// The defensive recursion budget used by [`compile`].
pub const RECURSION_LIMIT: u64 = 64;

/// What compiling the documents from the entry file yields: the emitted
/// declarations, or the first error met. A pure function of the
/// documents' text, which is what makes compilation deterministic.
pub open spec fn spec_compile(files: Seq<(Seq<char>, Seq<char>)>, entry: Seq<char>) -> Result<
    Seq<char>,
    FailView,
> {
    let m0 = ParserModel { structs: Seq::empty(), enums: Seq::empty() };
    let r = spec_parse_file(files, entry, m0, RECURSION_LIMIT as nat);
    match r.0 {
        Err(f) => Err(f),
        Ok(_) => Ok(spec_output(r.1)),
    }
}

/// Compiles the schema tree rooted at `entry` into the emitted artifact,
/// or reports the first failure met, with the offending file's path.
pub fn compile(files: Vec<(String, String)>, entry: &str) -> (r: Result<String, CompileFailure>)
    ensures
        r matches Ok(s) ==> spec_compile(files_view(files@), entry@) == Ok::<
            Seq<char>,
            FailView,
        >(s@),
        r matches Err(f) ==> spec_compile(files_view(files@), entry@) == Err::<
            Seq<char>,
            FailView,
        >(f@),
{
    let mut parser = Parser::new(files);
    match parser.parse_file(entry, RECURSION_LIMIT) {
        Ok(_) => {},
        Err(f) => {
            return Err(f);
        },
    }
    let mut out = String::new();
    parser.write_to_string(&mut out);
    assert(out@ =~= spec_output(parser.model()));
    Ok(out)
}

/// Determinism: compiling the same schema tree twice produces
/// byte-identical output, because the result is a function of the
/// documents' text alone.
pub proof fn lemma_compile_deterministic(
    files1: Seq<(Seq<char>, Seq<char>)>,
    files2: Seq<(Seq<char>, Seq<char>)>,
    entry1: Seq<char>,
    entry2: Seq<char>,
)
    requires
        files1 == files2,
        entry1 == entry2,
    ensures
        spec_compile(files1, entry1) == spec_compile(files2, entry2),
{
}

/// Deduplication: a schema object whose title is already registered
/// resolves to the existing handle, registers nothing, and re-walks no
/// properties — every later reference site observes the same handle and
/// the same, complete definition.
pub proof fn lemma_reference_site_reuses_handle(
    files: Seq<(Seq<char>, Seq<char>)>,
    j: Json,
    doc: Seq<char>,
    m: ParserModel,
    depth: nat,
    title: String,
    h: usize,
)
    requires
        crate::json::json_get(j, "title"@) == Some(Json::Str(title)),
        spec_lookup(m.structs, title@) == Some(h),
    ensures
        spec_parse_object(files, j, doc, m, depth) == (Ok::<Item, FailView>(Item::Struct(h)), m),
{
}

/// Deduplication at the normalizer: an object schema without a `$ref`,
/// whose title is already registered, normalizes to the existing handle
/// with the registry unchanged — its properties are not re-walked and no
/// second definition is created.
pub proof fn lemma_parse_item_reuses_handle(
    files: Seq<(Seq<char>, Seq<char>)>,
    j: Json,
    doc: Seq<char>,
    m: ParserModel,
    depth: nat,
    t: String,
    title: String,
    h: usize,
)
    requires
        depth > 0,
        j is Obj,
        crate::json::json_get(j, "$ref"@) is None,
        crate::json::json_get(j, "type"@) == Some(Json::Str(t)),
        t@ == "object"@,
        crate::json::json_get(j, "title"@) == Some(Json::Str(title)),
        spec_lookup(m.structs, title@) == Some(h),
    ensures
        spec_parse_item(files, j, doc, m, depth) == (Ok::<Item, FailView>(Item::Struct(h)), m),
{
    reveal_strlit("array");
    reveal_strlit("object");
    assert("array"@.len() == 5);
    assert("object"@.len() == 6);
    assert(t@ != "array"@);
    lemma_reference_site_reuses_handle(files, j, doc, m, depth, title, h);
}

/// Array shape, fully general: an array schema's bounds are its
/// `minItems` and `maxItems` keywords where present, with an absent
/// lower bound reading as zero and an absent upper bound as unbounded.
pub proof fn lemma_array_item_from_schema(
    files: Seq<(Seq<char>, Seq<char>)>,
    j: Json,
    doc: Seq<char>,
    t: String,
    items_j: Json,
    m: ParserModel,
    m1: ParserModel,
    depth: nat,
    elem: Item,
    mi: Option<i64>,
    ma: Option<i64>,
)
    requires
        depth > 0,
        j is Obj,
        crate::json::json_get(j, "$ref"@) is None,
        crate::json::json_get(j, "type"@) == Some(Json::Str(t)),
        t@ == "array"@,
        crate::json::json_get(j, "items"@) == Some(items_j),
        spec_parse_item(files, items_j, doc, m, (depth - 1) as nat) == (
            Ok::<Item, FailView>(elem),
            m1,
        ),
        crate::parser::spec_opt_int(j, "minItems"@) == Ok::<Option<i64>, CompileError>(mi),
        crate::parser::spec_opt_int(j, "maxItems"@) == Ok::<Option<i64>, CompileError>(ma),
    ensures
        spec_parse_item(files, j, doc, m, depth) == (
            Ok::<Item, FailView>(
                Item::Array(
                    Array {
                        item_type: Box::new(elem),
                        min_items: match mi {
                            Some(n) => n,
                            None => 0,
                        },
                        max_items: ma,
                    },
                ),
            ),
            m1,
        ),
{
}

/// Array shape, normalization half: an array schema whose `minItems` and
/// `maxItems` both read as `n` normalizes to an array item with exactly
/// those bounds, and one without a `maxItems` keyword to an unbounded
/// one.
pub proof fn lemma_array_bounds_from_schema(
    files: Seq<(Seq<char>, Seq<char>)>,
    j: Json,
    doc: Seq<char>,
    t: String,
    items_j: Json,
    m: ParserModel,
    m1: ParserModel,
    depth: nat,
    elem: Item,
    n: i64,
)
    requires
        depth > 0,
        j is Obj,
        crate::json::json_get(j, "$ref"@) is None,
        crate::json::json_get(j, "type"@) == Some(Json::Str(t)),
        t@ == "array"@,
        crate::json::json_get(j, "items"@) == Some(items_j),
        spec_parse_item(files, items_j, doc, m, (depth - 1) as nat) == (
            Ok::<Item, FailView>(elem),
            m1,
        ),
        crate::parser::spec_opt_int(j, "minItems"@) == Ok::<Option<i64>, CompileError>(Some(n)),
        crate::parser::spec_opt_int(j, "maxItems"@) == Ok::<Option<i64>, CompileError>(Some(n)),
    ensures
        spec_parse_item(files, j, doc, m, depth) == (
            Ok::<Item, FailView>(
                Item::Array(Array { item_type: Box::new(elem), min_items: n, max_items: Some(n) }),
            ),
            m1,
        ),
{
}

/// Array shape, emission half: bounds that are both present and equal emit a
/// fixed-length sequence type of exactly that length; an absent upper
/// bound emits a variable-length sequence type.
pub proof fn lemma_array_shape(
    structs: Seq<StructDefView>,
    enums: Seq<EnumDefView>,
    elem: Item,
    n: i64,
)
    ensures
        spec_item_name(
            structs,
            enums,
            Item::Array(Array { item_type: Box::new(elem), min_items: n, max_items: Some(n) }),
        ) == "["@ + spec_item_name(structs, enums, elem) + "; "@ + dec_int(n as int) + "]"@,
        spec_item_name(
            structs,
            enums,
            Item::Array(Array { item_type: Box::new(elem), min_items: n, max_items: None }),
        ) == "Vec<"@ + spec_item_name(structs, enums, elem) + ">"@,
{
}

} // verus!
