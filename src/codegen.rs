//! The two renderers over one schema: the server's capability trait, and the
//! client's declarations and request helpers. Both name the same tags and the
//! same shapes, so what one side encodes the other decodes.

use vstd::prelude::*;
use crate::schema::{Operation, Schema, Shape};
use crate::wire::{json_string, json_string_of};

verus! {

/// A shape as a server-side type.
pub open spec fn server_type(s: Shape) -> Seq<char>
    decreases s,
{
    match s {
        Shape::Int32 => "i32"@,
        Shape::Int64 => "i64"@,
        Shape::Bool => "bool"@,
        Shape::Text => "String"@,
        Shape::Unit => "()"@,
        Shape::Named(n) => n@,
        Shape::List(b) => "Vec<"@ + server_type(*b) + ">"@,
        Shape::Optional(b) => "Option<"@ + server_type(*b) + ">"@,
    }
}

/// A shape as a client-side type. An optional value allows a value, an absent
/// field and an explicit null, as the client prelude's `Option` says.
pub open spec fn client_type(s: Shape) -> Seq<char>
    decreases s,
{
    match s {
        Shape::Int32 => "number"@,
        Shape::Int64 => "number"@,
        Shape::Bool => "boolean"@,
        Shape::Text => "string"@,
        Shape::Unit => "null"@,
        Shape::Named(n) => n@,
        Shape::List(b) => "Array<"@ + client_type(*b) + ">"@,
        Shape::Optional(b) => "Option<"@ + client_type(*b) + ">"@,
    }
}

fn push_server_type(s: &Shape, out: &mut String)
    ensures
        final(out)@ == old(out)@ + server_type(*s),
    decreases s,
{
    let ghost start = out@;
    match s {
        Shape::Int32 => out.append("i32"),
        Shape::Int64 => out.append("i64"),
        Shape::Bool => out.append("bool"),
        Shape::Text => out.append("String"),
        Shape::Unit => out.append("()"),
        Shape::Named(n) => out.append(n.as_str()),
        Shape::List(b) => {
            out.append("Vec<");
            push_server_type(b, out);
            out.append(">");
        },
        Shape::Optional(b) => {
            out.append("Option<");
            push_server_type(b, out);
            out.append(">");
        },
    }
    assert(out@ =~= start + server_type(*s));
}

fn push_client_type(s: &Shape, out: &mut String)
    ensures
        final(out)@ == old(out)@ + client_type(*s),
    decreases s,
{
    let ghost start = out@;
    match s {
        Shape::Int32 => out.append("number"),
        Shape::Int64 => out.append("number"),
        Shape::Bool => out.append("boolean"),
        Shape::Text => out.append("string"),
        Shape::Unit => out.append("null"),
        Shape::Named(n) => out.append(n.as_str()),
        Shape::List(b) => {
            out.append("Array<");
            push_client_type(b, out);
            out.append(">");
        },
        Shape::Optional(b) => {
            out.append("Option<");
            push_client_type(b, out);
            out.append(">");
        },
    }
    assert(out@ =~= start + client_type(*s));
}

/// The first `n` arguments as server parameters, each `, name: Type`.
pub open spec fn server_params(args: Seq<(String, Shape)>, n: nat) -> Seq<char>
    decreases n,
{
    if n == 0 || n > args.len() {
        Seq::empty()
    } else {
        server_params(args, (n - 1) as nat) + ", "@ + args[n - 1].0@ + ": "@ + server_type(
            args[n - 1].1,
        )
    }
}

/// The first `n` arguments as client parameters, each `name: Type, `.
pub open spec fn client_params(args: Seq<(String, Shape)>, n: nat) -> Seq<char>
    decreases n,
{
    if n == 0 || n > args.len() {
        Seq::empty()
    } else {
        client_params(args, (n - 1) as nat) + args[n - 1].0@ + ": "@ + client_type(args[n - 1].1)
            + ", "@
    }
}

/// The first `n` argument names, each `name, `: the fields of the argument
/// record built from the parameters.
pub open spec fn client_fields(args: Seq<(String, Shape)>, n: nat) -> Seq<char>
    decreases n,
{
    if n == 0 || n > args.len() {
        Seq::empty()
    } else {
        client_fields(args, (n - 1) as nat) + args[n - 1].0@ + ", "@
    }
}

/// The capability method of one operation.
pub open spec fn server_method(op: Operation, ctx: Seq<char>, err: Seq<char>) -> Seq<char> {
    "    async fn "@ + op.name@ + "(&self, ctx: "@ + ctx + server_params(op.args@, op.args@.len())
        + ") -> Result<"@ + server_type(op.result) + ", "@ + err + ">;\n"@
}

/// The argument type and request helper of one operation: the helper sends
/// the operation's tag with the argument record and resolves to the tagged
/// result.
pub open spec fn client_helper(op: Operation, err: Seq<char>) -> Seq<char> {
    "export type "@ + op.name@ + "Args = {\n"@ + client_fields_decl(op.args@, op.args@.len())
        + "};\n"@ + "export function "@ + op.name@ + "("@ + client_params(op.args@, op.args@.len())
        + "): Promise<Result<"@ + client_type(op.result) + ", "@ + err + ">> {\n    return call({ \""@
        + op.name@ + "\": { "@ + client_fields(op.args@, op.args@.len()) + "} });\n}\n"@
}

pub open spec fn server_methods(ops: Seq<Operation>, n: nat, ctx: Seq<char>, err: Seq<char>) -> Seq<
    char,
>
    decreases n,
{
    if n == 0 || n > ops.len() {
        Seq::empty()
    } else {
        server_methods(ops, (n - 1) as nat, ctx, err) + server_method(ops[n - 1], ctx, err)
    }
}

pub open spec fn client_helpers(ops: Seq<Operation>, n: nat, err: Seq<char>) -> Seq<char>
    decreases n,
{
    if n == 0 || n > ops.len() {
        Seq::empty()
    } else {
        client_helpers(ops, (n - 1) as nat, err) + client_helper(ops[n - 1], err)
    }
}

/// One argument in one of the server's lists: a field of a `RootQuery`
/// variant (style 0), a name bound by a pattern (style 1), or a name passed
/// on in a call (style 2).
pub open spec fn arg_item(a: (String, Shape), style: u8) -> Seq<char> {
    if style == 0 {
        " "@ + a.0@ + ": "@ + server_type(a.1) + ","@
    } else if style == 1 {
        " "@ + a.0@ + ","@
    } else {
        ", "@ + a.0@
    }
}

/// The first `n` arguments in the given style.
pub open spec fn arg_list(args: Seq<(String, Shape)>, n: nat, style: u8) -> Seq<char>
    decreases n,
{
    if n == 0 || n > args.len() {
        Seq::empty()
    } else {
        arg_list(args, (n - 1) as nat, style) + arg_item(args[n - 1], style)
    }
}

/// The variant of the request union for one operation: its tag, with the
/// argument record as its fields.
pub open spec fn root_variant(op: Operation) -> Seq<char> {
    "    "@ + op.name@ + " {"@ + arg_list(op.args@, op.args@.len(), 0) + " },\n"@
}

pub open spec fn root_variants(ops: Seq<Operation>, n: nat) -> Seq<char>
    decreases n,
{
    if n == 0 || n > ops.len() {
        Seq::empty()
    } else {
        root_variants(ops, (n - 1) as nat) + root_variant(ops[n - 1])
    }
}

/// The arm of the dispatcher method for one operation: it calls the
/// operation's method once, encodes the tagged result once, and hands back
/// the error beside it.
pub open spec fn handle_arm(op: Operation) -> Seq<char> {
    "            RootQuery::"@ + op.name@ + " {"@ + arg_list(op.args@, op.args@.len(), 1)
        + " } => {\n                let resp = self."@ + op.name@ + "(ctx"@ + arg_list(
        op.args@,
        op.args@.len(),
        2,
    ) + ").await;\n                let body = serde_json::to_string(&resp)?;\n                Ok((body, resp.err()))\n            }\n"@
}

pub open spec fn handle_arms(ops: Seq<Operation>, n: nat) -> Seq<char>
    decreases n,
{
    if n == 0 || n > ops.len() {
        Seq::empty()
    } else {
        handle_arms(ops, (n - 1) as nat) + handle_arm(ops[n - 1])
    }
}

/// The dispatcher method of the capability trait.
pub open spec fn handle_method(ops: Seq<Operation>, ctx: Seq<char>, err: Seq<char>) -> Seq<char> {
    "    async fn handle(&self, ctx: "@ + ctx + ", query: RootQuery) -> Result<(String, Option<"@
        + err + ">), serde_json::Error> {\n        match query {\n"@ + handle_arms(ops, ops.len())
        + "        }\n    }\n"@
}

/// The server artifact: the request union, then the capability trait with
/// one asynchronous method per operation, in schema order, and the
/// dispatcher method.
pub open spec fn server_text(ops: Seq<Operation>, ctx: Seq<char>, err: Seq<char>) -> Seq<char> {
    "#[derive(Serialize, Deserialize, Debug, Clone)]\npub enum RootQuery {\n"@ + root_variants(
        ops,
        ops.len(),
    ) + "}\n#[async_trait]\npub trait RootQueryRouter {\n"@ + server_methods(ops, ops.len(), ctx, err)
        + handle_method(ops, ctx, err) + "}\n"@
}

/// The client prelude: the optional type with its three states, the result
/// type with its two tags, and `call`, which posts a tagged request and reads
/// the tagged result.
pub open spec fn client_prelude() -> Seq<char> {
    "export type Option<T> = T | undefined | null;\nexport type Result<T, E> = {\n    'Ok': T\n} | {\n    'Err': E\n};\nexport async function call<T, E>(query: object): Promise<Result<T, E>> {\n    const resp = await fetch('/api', { method: 'POST', body: JSON.stringify(query) });\n    return resp.json();\n}\n"@
}

/// The client artifact: the prelude, then one request helper per operation.
pub open spec fn client_text(ops: Seq<Operation>, err: Seq<char>) -> Seq<char> {
    client_prelude() + client_helpers(ops, ops.len(), err)
}

fn push_server_params(args: &Vec<(String, Shape)>, out: &mut String)
    ensures
        final(out)@ == old(out)@ + server_params(args@, args@.len()),
{
    let ghost start = out@;
    let mut i: usize = 0;
    while i < args.len()
        invariant
            i <= args@.len(),
            out@ == start + server_params(args@, i as nat),
        decreases args@.len() - i,
    {
        out.append(", ");
        out.append(args[i].0.as_str());
        out.append(": ");
        push_server_type(&args[i].1, out);
        i += 1;
        assert(out@ =~= start + server_params(args@, i as nat));
    }
}

fn push_client_params(args: &Vec<(String, Shape)>, out: &mut String)
    ensures
        final(out)@ == old(out)@ + client_params(args@, args@.len()),
{
    let ghost start = out@;
    let mut i: usize = 0;
    while i < args.len()
        invariant
            i <= args@.len(),
            out@ == start + client_params(args@, i as nat),
        decreases args@.len() - i,
    {
        out.append(args[i].0.as_str());
        out.append(": ");
        push_client_type(&args[i].1, out);
        out.append(", ");
        i += 1;
        assert(out@ =~= start + client_params(args@, i as nat));
    }
}

fn push_client_fields(args: &Vec<(String, Shape)>, out: &mut String)
    ensures
        final(out)@ == old(out)@ + client_fields(args@, args@.len()),
{
    let ghost start = out@;
    let mut i: usize = 0;
    while i < args.len()
        invariant
            i <= args@.len(),
            out@ == start + client_fields(args@, i as nat),
        decreases args@.len() - i,
    {
        out.append(args[i].0.as_str());
        out.append(", ");
        i += 1;
        assert(out@ =~= start + client_fields(args@, i as nat));
    }
}

fn push_arg_list(args: &Vec<(String, Shape)>, style: u8, out: &mut String)
    ensures
        final(out)@ == old(out)@ + arg_list(args@, args@.len(), style),
{
    let ghost start = out@;
    let mut i: usize = 0;
    while i < args.len()
        invariant
            i <= args@.len(),
            out@ == start + arg_list(args@, i as nat, style),
        decreases args@.len() - i,
    {
        let ghost before = out@;
        if style == 0 {
            out.append(" ");
            out.append(args[i].0.as_str());
            out.append(": ");
            push_server_type(&args[i].1, out);
            out.append(",");
        } else if style == 1 {
            out.append(" ");
            out.append(args[i].0.as_str());
            out.append(",");
        } else {
            out.append(", ");
            out.append(args[i].0.as_str());
        }
        assert(out@ =~= before + arg_item(args@[i as int], style));
        i += 1;
        assert(out@ =~= start + arg_list(args@, i as nat, style));
    }
}

fn push_root_variant(op: &Operation, out: &mut String)
    ensures
        final(out)@ == old(out)@ + root_variant(*op),
{
    let ghost start = out@;
    out.append("    ");
    out.append(op.name.as_str());
    out.append(" {");
    push_arg_list(&op.args, 0, out);
    out.append(" },\n");
    assert(out@ =~= start + root_variant(*op));
}

fn push_handle_arm(op: &Operation, out: &mut String)
    ensures
        final(out)@ == old(out)@ + handle_arm(*op),
{
    let ghost start = out@;
    out.append("            RootQuery::");
    out.append(op.name.as_str());
    out.append(" {");
    push_arg_list(&op.args, 1, out);
    out.append(" } => {\n                let resp = self.");
    out.append(op.name.as_str());
    out.append("(ctx");
    push_arg_list(&op.args, 2, out);
    out.append(
        ").await;\n                let body = serde_json::to_string(&resp)?;\n                Ok((body, resp.err()))\n            }\n",
    );
    assert(out@ =~= start + handle_arm(*op));
}

fn push_server_method(op: &Operation, ctx: &str, err: &str, out: &mut String)
    ensures
        final(out)@ == old(out)@ + server_method(*op, ctx@, err@),
{
    let ghost start = out@;
    out.append("    async fn ");
    out.append(op.name.as_str());
    out.append("(&self, ctx: ");
    out.append(ctx);
    push_server_params(&op.args, out);
    out.append(") -> Result<");
    push_server_type(&op.result, out);
    out.append(", ");
    out.append(err);
    out.append(">;\n");
    assert(out@ =~= start + server_method(*op, ctx@, err@));
}

fn push_client_helper(op: &Operation, err: &str, out: &mut String)
    ensures
        final(out)@ == old(out)@ + client_helper(*op, err@),
{
    let ghost start = out@;
    out.append("export type ");
    out.append(op.name.as_str());
    out.append("Args = {\n");
    push_client_fields_decl(&op.args, out);
    out.append("};\n");
    out.append("export function ");
    out.append(op.name.as_str());
    out.append("(");
    push_client_params(&op.args, out);
    out.append("): Promise<Result<");
    push_client_type(&op.result, out);
    out.append(", ");
    out.append(err);
    out.append(">> {\n    return call({ \"");
    out.append(op.name.as_str());
    out.append("\": { ");
    push_client_fields(&op.args, out);
    out.append("} });\n}\n");
    assert(out@ =~= start + client_helper(*op, err@));
}

/// Renders the server artifact: the request union and the capability trait,
/// whose methods take the context type `ctx` and fail with the error type
/// `err`.
pub fn render_server(schema: &Schema, ctx: &str, err: &str) -> (r: String)
    ensures
        r@ == server_text(schema.spec_ops(), ctx@, err@),
{
    let ops = Ghost(schema.spec_ops());
    let n = schema.len();
    let mut out = String::from_str(
        "#[derive(Serialize, Deserialize, Debug, Clone)]\npub enum RootQuery {\n",
    );
    let ghost s0 = out@;
    let mut i: usize = 0;
    while i < n
        invariant
            n == ops@.len(),
            ops@ == schema.spec_ops(),
            i <= n,
            out@ == s0 + root_variants(ops@, i as nat),
        decreases n - i,
    {
        push_root_variant(schema.operation(i), &mut out);
        i += 1;
        assert(out@ =~= s0 + root_variants(ops@, i as nat));
    }
    out.append("}\n#[async_trait]\npub trait RootQueryRouter {\n");
    let ghost s1 = out@;
    let mut i: usize = 0;
    while i < n
        invariant
            n == ops@.len(),
            ops@ == schema.spec_ops(),
            i <= n,
            out@ == s1 + server_methods(ops@, i as nat, ctx@, err@),
        decreases n - i,
    {
        push_server_method(schema.operation(i), ctx, err, &mut out);
        i += 1;
        assert(out@ =~= s1 + server_methods(ops@, i as nat, ctx@, err@));
    }
    out.append("    async fn handle(&self, ctx: ");
    out.append(ctx);
    out.append(", query: RootQuery) -> Result<(String, Option<");
    out.append(err);
    out.append(">), serde_json::Error> {\n        match query {\n");
    let ghost s2 = out@;
    let mut i: usize = 0;
    while i < n
        invariant
            n == ops@.len(),
            ops@ == schema.spec_ops(),
            i <= n,
            out@ == s2 + handle_arms(ops@, i as nat),
        decreases n - i,
    {
        push_handle_arm(schema.operation(i), &mut out);
        i += 1;
        assert(out@ =~= s2 + handle_arms(ops@, i as nat));
    }
    out.append("        }\n    }\n");
    assert(out@ =~= s1 + server_methods(ops@, n as nat, ctx@, err@) + handle_method(ops@, ctx@, err@));
    out.append("}\n");
    assert(out@ =~= server_text(ops@, ctx@, err@));
    out
}

/// Renders the client's declarations, whose helpers resolve to results that
/// fail with the client type `err`.
pub fn render_client(schema: &Schema, err: &str) -> (r: String)
    ensures
        r@ == client_text(schema.spec_ops(), err@),
{
    let mut out = String::from_str(
        "export type Option<T> = T | undefined | null;\nexport type Result<T, E> = {\n    'Ok': T\n} | {\n    'Err': E\n};\nexport async function call<T, E>(query: object): Promise<Result<T, E>> {\n    const resp = await fetch('/api', { method: 'POST', body: JSON.stringify(query) });\n    return resp.json();\n}\n",
    );
    let ghost start = out@;
    let n = schema.len();
    let mut i: usize = 0;
    while i < n
        invariant
            n == schema.spec_ops().len(),
            i <= n,
            out@ == start + client_helpers(schema.spec_ops(), i as nat, err@),
        decreases n - i,
    {
        push_client_helper(schema.operation(i), err, &mut out);
        i += 1;
        assert(out@ =~= start + client_helpers(schema.spec_ops(), i as nat, err@));
    }
    assert(out@ =~= client_text(schema.spec_ops(), err@));
    out
}

/// A type of the model, as the client declares it.
pub enum TypeDecl {
    /// A record with its fields in order.
    Record { name: String, fields: Vec<(String, Shape)> },
    /// An enumeration of unit variants, each encoded as its name in a string.
    Enumeration { name: String, variants: Vec<String> },
}

/// The first `n` fields of a record, each on a line of its own.
pub open spec fn client_fields_decl(fields: Seq<(String, Shape)>, n: nat) -> Seq<char>
    decreases n,
{
    if n == 0 || n > fields.len() {
        Seq::empty()
    } else {
        client_fields_decl(fields, (n - 1) as nat) + "    "@ + fields[n - 1].0@ + ": "@
            + client_type(fields[n - 1].1) + ",\n"@
    }
}

/// The first `n` variants as members of a union of string literals.
pub open spec fn client_variants(variants: Seq<String>, n: nat) -> Seq<char>
    decreases n,
{
    if n == 0 || n > variants.len() {
        Seq::empty()
    } else {
        client_variants(variants, (n - 1) as nat) + " | "@ + json_string_of(variants[n - 1]@)
    }
}

/// The client declaration of one model type.
pub open spec fn client_decl(d: TypeDecl) -> Seq<char> {
    match d {
        TypeDecl::Record { name, fields } => "export type "@ + name@ + " = {\n"@
            + client_fields_decl(fields@, fields@.len()) + "};\n"@,
        TypeDecl::Enumeration { name, variants } => "export type "@ + name@ + " = never"@
            + client_variants(variants@, variants@.len()) + ";\n"@,
    }
}

pub open spec fn client_decls(decls: Seq<TypeDecl>, n: nat) -> Seq<char>
    decreases n,
{
    if n == 0 || n > decls.len() {
        Seq::empty()
    } else {
        client_decls(decls, (n - 1) as nat) + client_decl(decls[n - 1])
    }
}

fn push_client_fields_decl(fields: &Vec<(String, Shape)>, out: &mut String)
    ensures
        final(out)@ == old(out)@ + client_fields_decl(fields@, fields@.len()),
{
    let ghost mid = out@;
    let mut i: usize = 0;
    while i < fields.len()
        invariant
            i <= fields@.len(),
            out@ == mid + client_fields_decl(fields@, i as nat),
        decreases fields@.len() - i,
    {
        out.append("    ");
        out.append(fields[i].0.as_str());
        out.append(": ");
        push_client_type(&fields[i].1, out);
        out.append(",\n");
        i += 1;
        assert(out@ =~= mid + client_fields_decl(fields@, i as nat));
    }
}

fn push_client_decl(d: &TypeDecl, out: &mut String)
    ensures
        final(out)@ == old(out)@ + client_decl(*d),
{
    let ghost start = out@;
    out.append("export type ");
    match d {
        TypeDecl::Record { name, fields } => {
            out.append(name.as_str());
            out.append(" = {\n");
            push_client_fields_decl(fields, out);
            out.append("};\n");
        },
        TypeDecl::Enumeration { name, variants } => {
            out.append(name.as_str());
            out.append(" = never");
            let ghost mid = out@;
            let mut i: usize = 0;
            while i < variants.len()
                invariant
                    i <= variants@.len(),
                    out@ == mid + client_variants(variants@, i as nat),
                decreases variants@.len() - i,
            {
                out.append(" | ");
                let quoted = json_string(variants[i].as_str());
                out.append(quoted.as_str());
                i += 1;
                assert(out@ =~= mid + client_variants(variants@, i as nat));
            }
            out.append(";\n");
        },
    }
    assert(out@ =~= start + client_decl(*d));
}

/// Renders the client's declarations of the model types, in order.
pub fn render_client_types(decls: &Vec<TypeDecl>) -> (r: String)
    ensures
        r@ == client_decls(decls@, decls@.len()),
{
    let mut out = String::new();
    let mut i: usize = 0;
    while i < decls.len()
        invariant
            i <= decls@.len(),
            out@ == client_decls(decls@, i as nat),
        decreases decls@.len() - i,
    {
        push_client_decl(&decls[i], &mut out);
        i += 1;
        assert(out@ =~= client_decls(decls@, i as nat));
    }
    out
}

/// The name a declaration gives its type.
pub open spec fn decl_name(d: TypeDecl) -> Seq<char> {
    match d {
        TypeDecl::Record { name, .. } => name@,
        TypeDecl::Enumeration { name, .. } => name@,
    }
}

/// Whether some declaration gives its type the name `n`.
pub open spec fn declared(decls: Seq<TypeDecl>, n: Seq<char>) -> bool {
    exists|i: int| 0 <= i < decls.len() && #[trigger] decl_name(decls[i]) == n
}

/// Whether every type that a shape names is declared.
pub open spec fn shape_declared(s: Shape, decls: Seq<TypeDecl>) -> bool
    decreases s,
{
    match s {
        Shape::Named(n) => declared(decls, n@),
        Shape::List(b) => shape_declared(*b, decls),
        Shape::Optional(b) => shape_declared(*b, decls),
        _ => true,
    }
}

/// Whether every type that an operation's arguments and result name is
/// declared: both renderers can then express it.
pub open spec fn operation_declared(op: Operation, decls: Seq<TypeDecl>) -> bool {
    &&& shape_declared(op.result, decls)
    &&& forall|k: int| 0 <= k < op.args@.len() ==> shape_declared(#[trigger] op.args@[k].1, decls)
}

fn is_declared(decls: &Vec<TypeDecl>, n: &String) -> (r: bool)
    ensures
        r == declared(decls@, n@),
{
    let mut i: usize = 0;
    while i < decls.len()
        invariant
            i <= decls@.len(),
            forall|k: int| 0 <= k < i ==> #[trigger] decl_name(decls@[k]) != n@,
        decreases decls@.len() - i,
    {
        let name = match &decls[i] {
            TypeDecl::Record { name, .. } => name,
            TypeDecl::Enumeration { name, .. } => name,
        };
        if *name == *n {
            assert(decl_name(decls@[i as int]) == n@);
            return true;
        }
        i += 1;
    }
    false
}

fn check_shape(s: &Shape, decls: &Vec<TypeDecl>) -> (r: bool)
    ensures
        r == shape_declared(*s, decls@),
    decreases s,
{
    match s {
        Shape::Named(n) => is_declared(decls, n),
        Shape::List(b) => check_shape(b, decls),
        Shape::Optional(b) => check_shape(b, decls),
        _ => true,
    }
}

fn check_operation(op: &Operation, decls: &Vec<TypeDecl>) -> (r: bool)
    ensures
        r == operation_declared(*op, decls@),
{
    if !check_shape(&op.result, decls) {
        return false;
    }
    let mut k: usize = 0;
    while k < op.args.len()
        invariant
            k <= op.args@.len(),
            forall|j: int| 0 <= j < k ==> shape_declared(#[trigger] op.args@[j].1, decls@),
        decreases op.args@.len() - k,
    {
        if !check_shape(&op.args[k].1, decls) {
            return false;
        }
        k += 1;
    }
    true
}

/// The index of the first operation that names an undeclared type, if any.
/// Rendering a schema for which this is not `None` would emit types that do
/// not exist, so it is refused before anything is written.
pub fn first_undeclared(schema: &Schema, decls: &Vec<TypeDecl>) -> (r: Option<usize>)
    ensures
        r matches Some(i) ==> i < schema.spec_ops().len() && !operation_declared(
            schema.spec_ops()[i as int],
            decls@,
        ) && forall|j: int| 0 <= j < i ==> operation_declared(#[trigger] schema.spec_ops()[j], decls@),
        r is None ==> forall|j: int|
            0 <= j < schema.spec_ops().len() ==> operation_declared(
                #[trigger] schema.spec_ops()[j],
                decls@,
            ),
{
    let n = schema.len();
    let mut i: usize = 0;
    while i < n
        invariant
            n == schema.spec_ops().len(),
            i <= n,
            forall|j: int| 0 <= j < i ==> operation_declared(#[trigger] schema.spec_ops()[j], decls@),
        decreases n - i,
    {
        if !check_operation(schema.operation(i), decls) {
            return Some(i);
        }
        i += 1;
    }
    None
}

} // verus!
