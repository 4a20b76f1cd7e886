//! Declaration assembly: classifying every type-bearing position of a
//! function or struct item and building its record.
//!
//! The walker holds a read-only view of the source text and the parsed
//! items for the duration of one file, builds the line-offset table once,
//! and produces one record per function or struct, in source order. The
//! first unsupported construct it meets aborts the walk with an error.

use crate::ast::Field;
use crate::ast::FnArg;
use crate::ast::Item;
use crate::ast::ItemStruct;
use crate::ast::ItemFn;
use crate::ast::Local;
use crate::ast::Pat;
use crate::ast::ReturnType;
use crate::ast::TypeAnn;
use crate::ast::fn_wf;
use crate::ast::item_wf;
use crate::ast::items_wf;
use crate::ast::lemma_stmts_vars_wf;
use crate::ast::locals_wf;
use crate::ast::pat_name;
use crate::ast::pat_wf;
use crate::ast::stmts_vars;
use crate::ast::stmts_variables;
use crate::classify::classify_annotation;
use crate::classify::spec_classify;
use crate::kinds::PointerKind;
use crate::records::FnRecord;
use crate::records::FnRecordV;
use crate::records::NamedKind;
use crate::records::NamedKindV;
use crate::records::Record;
use crate::records::RecordV;
use crate::records::StructRecord;
use crate::records::StructRecordV;
use crate::records::WalkError;
use crate::records::records_view;
use crate::span::is_offset_table;
use crate::span::lines_offsets;
use crate::span::span_to_str;
use crate::span::span_valid;
use crate::span::spec_span_text;
use vstd::prelude::*;

verus! {

/// Recovers the literal source text of a type annotation.
pub fn type_to_string(ty: &TypeAnn, src: &str, table: &Vec<usize>) -> (r: String)
    requires
        is_offset_table(table@, src@),
        span_valid(src@, ty.span),
    ensures
        r@ == spec_span_text(src@, ty.span),
{
    span_to_str(&ty.span, src, table)
}

/// Classifies a type annotation by the literal source text it spans.
pub fn parse_type(ty: &TypeAnn, src: &str, table: &Vec<usize>) -> (k: PointerKind)
    requires
        is_offset_table(table@, src@),
        span_valid(src@, ty.span),
    ensures
        k == spec_classify(spec_span_text(src@, ty.span)),
{
    let source_text = type_to_string(ty, src, table);
    classify_annotation(source_text.as_str())
}

/// The kind of a declared return type: `Inferred` when no annotation is
/// present at all, the classification of the annotation's text otherwise.
pub open spec fn spec_return_kind(rt: ReturnType, src: Seq<char>) -> PointerKind {
    match rt {
        ReturnType::Default => PointerKind::Inferred,
        ReturnType::Annotated(ty) => spec_classify(spec_span_text(src, ty.span)),
    }
}

/// Whether a return type's annotation, if any, lies inside the source text.
pub open spec fn ret_wf(rt: ReturnType, src: Seq<char>) -> bool {
    match rt {
        ReturnType::Default => true,
        ReturnType::Annotated(ty) => span_valid(src, ty.span),
    }
}

/// Classifies a function's declared return type. A function declared
/// without one classifies as `Inferred`, distinct from `NonePointerKind`.
pub fn parse_return_type(ret_type: &ReturnType, src: &str, table: &Vec<usize>) -> (k: PointerKind)
    requires
        is_offset_table(table@, src@),
        ret_wf(*ret_type, src@),
    ensures
        k == spec_return_kind(*ret_type, src@),
{
    match ret_type {
        ReturnType::Default => PointerKind::Inferred,
        ReturnType::Annotated(ty) => parse_type(ty, src, table),
    }
}

/// The type annotation a binding pattern carries at its outermost level:
/// none for a plain name, the annotation for a typed name, an error for
/// any other pattern shape.
pub open spec fn pat_ann(p: Pat) -> Result<Option<TypeAnn>, WalkError> {
    match p {
        Pat::Ident { .. } => Ok(None),
        Pat::Typed { ty, .. } => Ok(Some(ty)),
        Pat::Other => Err(WalkError::UnsupportedPattern),
    }
}

/// The name a binding pattern declares, or the error for a pattern shape
/// beyond a plain name or a name with an explicit type.
pub fn pattern_to_name(pat: &Pat) -> (r: Result<String, WalkError>)
    ensures
        match r {
            Ok(n) => pat_name(*pat) == Some(n@),
            Err(e) => pat_name(*pat) is None && e == WalkError::UnsupportedPattern,
        },
    decreases *pat,
{
    match pat {
        Pat::Ident { name } => Ok(name.clone()),
        Pat::Typed { inner, .. } => pattern_to_name(&**inner),
        Pat::Other => Err(WalkError::UnsupportedPattern),
    }
}

/// The outermost type annotation of a binding pattern, or the error for a
/// pattern shape the walker does not understand.
pub fn pattern_to_type(pat: &Pat) -> (r: Result<Option<&TypeAnn>, WalkError>)
    ensures
        match r {
            Ok(Some(t)) => pat_ann(*pat) == Ok::<Option<TypeAnn>, WalkError>(Some(*t)),
            Ok(None) => pat_ann(*pat) == Ok::<Option<TypeAnn>, WalkError>(None),
            Err(e) => pat_ann(*pat) == Err::<Option<TypeAnn>, WalkError>(e),
        },
{
    match pat {
        Pat::Ident { .. } => Ok(None),
        Pat::Typed { ty, .. } => Ok(Some(ty)),
        Pat::Other => Err(WalkError::UnsupportedPattern),
    }
}

/// The record entry of one function parameter: its declared name and the
/// classification of its annotation. A receiver, or a pattern the walker
/// does not understand, is an error.
pub open spec fn arg_entry(a: FnArg, src: Seq<char>) -> Result<NamedKindV, WalkError> {
    match a {
        FnArg::Typed { pat, ty } => match pat_name(pat) {
            Some(n) => Ok(
                NamedKindV { name: n, kind: spec_classify(spec_span_text(src, ty.span)) },
            ),
            None => Err(WalkError::UnsupportedPattern),
        },
        FnArg::Receiver => Err(WalkError::UnsupportedArgument),
    }
}

/// The record entry of one discovered local: its declared name, and the
/// classification of its annotation — `Inferred` when the binding carries
/// no annotation at all.
pub open spec fn local_entry(l: Local, src: Seq<char>) -> Result<NamedKindV, WalkError> {
    match pat_name(l.pat) {
        Some(n) => match l.pat {
            Pat::Typed { ty, .. } => Ok(
                NamedKindV { name: n, kind: spec_classify(spec_span_text(src, ty.span)) },
            ),
            _ => Ok(NamedKindV { name: n, kind: PointerKind::Inferred }),
        },
        None => Err(WalkError::UnsupportedPattern),
    }
}

/// The record entry of one struct field: its name and the classification
/// of its type annotation. A nameless field is an error.
pub open spec fn field_entry(fd: Field, src: Seq<char>) -> Result<NamedKindV, WalkError> {
    match fd.name {
        Some(n) => Ok(
            NamedKindV { name: n@, kind: spec_classify(spec_span_text(src, fd.ty.span)) },
        ),
        None => Err(WalkError::UnsupportedField),
    }
}

/// Folds an entry function over a list, left to right, keeping every entry
/// in order and stopping at the first error.
pub open spec fn collect_entries<A, B>(s: Seq<A>, f: spec_fn(A) -> Result<B, WalkError>) -> Result<
    Seq<B>,
    WalkError,
>
    decreases s.len(),
{
    if s.len() == 0 {
        Ok(Seq::empty())
    } else {
        match collect_entries(s.drop_last(), f) {
            Ok(done) => match f(s.last()) {
                Ok(b) => Ok(done.push(b)),
                Err(e) => Err(e),
            },
            Err(e) => Err(e),
        }
    }
}

/// One step of `collect_entries` over a growing prefix.
proof fn lemma_collect_take_step<A, B>(s: Seq<A>, f: spec_fn(A) -> Result<B, WalkError>, i: int)
    requires
        0 <= i < s.len(),
    ensures
        collect_entries(s.take(i + 1), f) == (match collect_entries(s.take(i), f) {
            Ok(done) => match f(s[i]) {
                Ok(b) => Ok::<Seq<B>, WalkError>(done.push(b)),
                Err(e) => Err::<Seq<B>, WalkError>(e),
            },
            Err(e) => Err::<Seq<B>, WalkError>(e),
        }),
{
    assert(s.take(i + 1).drop_last() =~= s.take(i));
    assert(s.take(i + 1).last() == s[i]);
}

/// An error on a prefix is the result for the whole list.
proof fn lemma_collect_err_prefix<A, B>(
    s: Seq<A>,
    f: spec_fn(A) -> Result<B, WalkError>,
    i: int,
    e: WalkError,
)
    requires
        0 <= i <= s.len(),
        collect_entries(s.take(i), f) == Err::<Seq<B>, WalkError>(e),
    ensures
        collect_entries(s, f) == Err::<Seq<B>, WalkError>(e),
    decreases s.len() - i,
{
    if i == s.len() {
        assert(s.take(i) =~= s);
    } else {
        lemma_collect_take_step(s, f, i);
        lemma_collect_err_prefix(s, f, i + 1, e);
    }
}

/// The record of one function declaration: name, return kind, parameter
/// entries in order, and the entries of every local discovered in the
/// body; or the first error met.
pub open spec fn spec_parse_function(f: ItemFn, src: Seq<char>) -> Result<FnRecordV, WalkError> {
    match collect_entries(f.args@, |a: FnArg| arg_entry(a, src)) {
        Ok(args) => match collect_entries(
            stmts_vars(f.body@),
            |l: Local| local_entry(l, src),
        ) {
            Ok(vars) => Ok(
                FnRecordV {
                    name: f.name@,
                    return_kind: spec_return_kind(f.output, src),
                    args: args,
                    variables: vars,
                },
            ),
            Err(e) => Err(e),
        },
        Err(e) => Err(e),
    }
}

/// The record of one top-level item: a function record, a struct record,
/// or an error for any other item kind or the first unsupported construct
/// within.
pub open spec fn spec_parse_item(it: Item, src: Seq<char>) -> Result<RecordV, WalkError> {
    match it {
        Item::Fn(f) => match spec_parse_function(f, src) {
            Ok(r) => Ok(RecordV::Function(r)),
            Err(e) => Err(e),
        },
        Item::Struct(s) => match collect_entries(s.fields@, |fd: Field| field_entry(fd, src)) {
            Ok(fs) => Ok(RecordV::Struct(StructRecordV { name: s.name@, fields: fs })),
            Err(e) => Err(e),
        },
        Item::Other => Err(WalkError::UnsupportedItem),
    }
}

/// Whether the walker assembles a record for an item: only functions and
/// structs are walked; every other item kind is filtered out beforehand.
pub open spec fn is_walked(it: Item) -> bool {
    it is Fn || it is Struct
}

/// The records of a file's items, in source order: one per function or
/// struct, every other item kind filtered out; or the first error met.
pub open spec fn spec_parse_file(items: Seq<Item>, src: Seq<char>) -> Result<
    Seq<RecordV>,
    WalkError,
>
    decreases items.len(),
{
    if items.len() == 0 {
        Ok(Seq::empty())
    } else {
        match spec_parse_file(items.drop_last(), src) {
            Ok(done) => if is_walked(items.last()) {
                match spec_parse_item(items.last(), src) {
                    Ok(r) => Ok(done.push(r)),
                    Err(e) => Err(e),
                }
            } else {
                Ok(done)
            },
            Err(e) => Err(e),
        }
    }
}

/// Builds the record of one function declaration: classifies its return
/// type and each parameter in order, then discovers every local variable
/// of the body and classifies each. Stops at the first unsupported
/// construct.
pub fn parse_function(item_fn: &ItemFn, src: &str, table: &Vec<usize>) -> (r: Result<
    FnRecord,
    WalkError,
>)
    requires
        is_offset_table(table@, src@),
        fn_wf(*item_fn, src@),
    ensures
        (match r {
            Ok(rec) => spec_parse_function(*item_fn, src@) == Ok::<FnRecordV, WalkError>(rec@),
            Err(e) => spec_parse_function(*item_fn, src@) == Err::<FnRecordV, WalkError>(e),
        }),
{
    let ghost fa = |a: FnArg| arg_entry(a, src@);
    let return_kind = parse_return_type(&item_fn.output, src, table);
    let mut args: Vec<NamedKind> = Vec::new();
    assert(collect_entries(item_fn.args@.take(0), fa) == Ok::<Seq<NamedKindV>, WalkError>(
        args@.map_values(|x: NamedKind| x@),
    )) by {
        assert(item_fn.args@.take(0) =~= Seq::<FnArg>::empty());
        assert(args@.map_values(|x: NamedKind| x@) =~= Seq::<NamedKindV>::empty());
    }
    let mut i: usize = 0;
    while i < item_fn.args.len()
        invariant
            is_offset_table(table@, src@),
            fn_wf(*item_fn, src@),
            i <= item_fn.args@.len(),
            fa == (|a: FnArg| arg_entry(a, src@)),
            collect_entries(item_fn.args@.take(i as int), fa) == Ok::<Seq<NamedKindV>, WalkError>(
                args@.map_values(|x: NamedKind| x@),
            ),
        decreases item_fn.args@.len() - i,
    {
        let ghost prev = args@;
        match &item_fn.args[i] {
            FnArg::Typed { pat, ty } => {
                match pattern_to_name(pat) {
                    Ok(name) => {
                        let kind = parse_type(ty, src, table);
                        let ghost entry = NamedKindV { name: name@, kind: kind };
                        args.push(NamedKind { name, kind });
                        proof {
                            lemma_collect_take_step(item_fn.args@, fa, i as int);
                            assert(fa(item_fn.args@[i as int]) == Ok::<NamedKindV, WalkError>(
                                entry,
                            ));
                            assert(args@.map_values(|x: NamedKind| x@) =~= prev.map_values(
                                |x: NamedKind| x@,
                            ).push(entry));
                        }
                    },
                    Err(e) => {
                        proof {
                            lemma_collect_take_step(item_fn.args@, fa, i as int);
                            lemma_collect_err_prefix(item_fn.args@, fa, i as int + 1, e);
                        }
                        return Err(e);
                    },
                }
            },
            FnArg::Receiver => {
                proof {
                    lemma_collect_take_step(item_fn.args@, fa, i as int);
                    lemma_collect_err_prefix(
                        item_fn.args@,
                        fa,
                        i as int + 1,
                        WalkError::UnsupportedArgument,
                    );
                }
                return Err(WalkError::UnsupportedArgument);
            },
        }
        i = i + 1;
    }
    assert(item_fn.args@.take(i as int) =~= item_fn.args@);
    let locals = stmts_variables(&item_fn.body);
    let ghost fl = |l: Local| local_entry(l, src@);
    let ghost lseq = stmts_vars(item_fn.body@);
    proof {
        lemma_stmts_vars_wf(item_fn.body@, src@);
    }
    let mut variables: Vec<NamedKind> = Vec::new();
    assert(collect_entries(lseq.take(0), fl) == Ok::<Seq<NamedKindV>, WalkError>(
        variables@.map_values(|x: NamedKind| x@),
    )) by {
        assert(lseq.take(0) =~= Seq::<Local>::empty());
        assert(variables@.map_values(|x: NamedKind| x@) =~= Seq::<NamedKindV>::empty());
    }
    let mut j: usize = 0;
    while j < locals.len()
        invariant
            is_offset_table(table@, src@),
            fn_wf(*item_fn, src@),
            j <= locals@.len(),
            locals@.map_values(|l: &Local| *l) == lseq,
            lseq == stmts_vars(item_fn.body@),
            locals_wf(lseq, src@),
            fl == (|l: Local| local_entry(l, src@)),
            fa == (|a: FnArg| arg_entry(a, src@)),
            collect_entries(item_fn.args@, fa) == Ok::<Seq<NamedKindV>, WalkError>(
                args@.map_values(|x: NamedKind| x@),
            ),
            collect_entries(lseq.take(j as int), fl) == Ok::<Seq<NamedKindV>, WalkError>(
                variables@.map_values(|x: NamedKind| x@),
            ),
        decreases locals@.len() - j,
    {
        let ghost prev = variables@;
        let l = locals[j];
        assert(locals@.map_values(|x: &Local| *x)[j as int] == lseq[j as int]);
        match pattern_to_name(&l.pat) {
            Ok(name) => {
                let kind = match &l.pat {
                    Pat::Typed { ty, .. } => {
                        assert(pat_wf(lseq[j as int].pat, src@));
                        parse_type(ty, src, table)
                    },
                    Pat::Ident { .. } => PointerKind::Inferred,
                    Pat::Other => {
                        // Unreachable: the name lookup above already
                        // rejected every pattern beyond a plain or typed
                        // name.
                        proof {
                            assert(false);
                        }
                        PointerKind::Inferred
                    },
                };
                let ghost entry = NamedKindV { name: name@, kind: kind };
                variables.push(NamedKind { name, kind });
                proof {
                    lemma_collect_take_step(lseq, fl, j as int);
                    assert(fl(lseq[j as int]) == Ok::<NamedKindV, WalkError>(entry));
                    assert(variables@.map_values(|x: NamedKind| x@) =~= prev.map_values(
                        |x: NamedKind| x@,
                    ).push(entry));
                }
            },
            Err(e) => {
                proof {
                    lemma_collect_take_step(lseq, fl, j as int);
                    assert(fl(lseq[j as int]) == Err::<NamedKindV, WalkError>(e));
                    lemma_collect_err_prefix(lseq, fl, j as int + 1, e);
                }
                return Err(e);
            },
        }
        j = j + 1;
    }
    assert(lseq.take(j as int) =~= lseq);
    let rec = FnRecord { name: item_fn.name.clone(), return_kind, args, variables };
    Ok(rec)
}

/// Builds the record of one top-level item: a function record or a struct
/// record. Any other item kind is an unsupported construct; the caller
/// filters such items out before assembly.
pub fn parse_item(item: &Item, src: &str, table: &Vec<usize>) -> (r: Result<Record, WalkError>)
    requires
        is_offset_table(table@, src@),
        item_wf(*item, src@),
    ensures
        (match r {
            Ok(rec) => spec_parse_item(*item, src@) == Ok::<RecordV, WalkError>(rec@),
            Err(e) => spec_parse_item(*item, src@) == Err::<RecordV, WalkError>(e),
        }),
{
    match item {
        Item::Fn(item_fn) => match parse_function(item_fn, src, table) {
            Ok(rec) => Ok(Record::Function(rec)),
            Err(e) => Err(e),
        },
        Item::Struct(item_struct) => {
            let ghost ff = |fd: Field| field_entry(fd, src@);
            let mut fields: Vec<NamedKind> = Vec::new();
            assert(collect_entries(item_struct.fields@.take(0), ff) == Ok::<
                Seq<NamedKindV>,
                WalkError,
            >(fields@.map_values(|x: NamedKind| x@))) by {
                assert(item_struct.fields@.take(0) =~= Seq::<Field>::empty());
                assert(fields@.map_values(|x: NamedKind| x@) =~= Seq::<NamedKindV>::empty());
            }
            let mut i: usize = 0;
            while i < item_struct.fields.len()
                invariant
                    is_offset_table(table@, src@),
                    *item == Item::Struct(*item_struct),
                    item_wf(*item, src@),
                    i <= item_struct.fields@.len(),
                    ff == (|fd: Field| field_entry(fd, src@)),
                    collect_entries(item_struct.fields@.take(i as int), ff) == Ok::<
                        Seq<NamedKindV>,
                        WalkError,
                    >(fields@.map_values(|x: NamedKind| x@)),
                decreases item_struct.fields@.len() - i,
            {
                let ghost prev = fields@;
                match &item_struct.fields[i].name {
                    Some(n) => {
                        let name = n.clone();
                        let kind = parse_type(&item_struct.fields[i].ty, src, table);
                        let ghost entry = NamedKindV { name: name@, kind: kind };
                        fields.push(NamedKind { name, kind });
                        proof {
                            lemma_collect_take_step(item_struct.fields@, ff, i as int);
                            assert(ff(item_struct.fields@[i as int]) == Ok::<
                                NamedKindV,
                                WalkError,
                            >(entry));
                            assert(fields@.map_values(|x: NamedKind| x@) =~= prev.map_values(
                                |x: NamedKind| x@,
                            ).push(entry));
                        }
                    },
                    None => {
                        proof {
                            lemma_collect_take_step(item_struct.fields@, ff, i as int);
                            lemma_collect_err_prefix(
                                item_struct.fields@,
                                ff,
                                i as int + 1,
                                WalkError::UnsupportedField,
                            );
                        }
                        return Err(WalkError::UnsupportedField);
                    },
                }
                i = i + 1;
            }
            assert(item_struct.fields@.take(i as int) =~= item_struct.fields@);
            Ok(Record::Struct(StructRecord { name: item_struct.name.clone(), fields }))
        },
        Item::Other => Err(WalkError::UnsupportedItem),
    }
}

/// One step of `spec_parse_file` over a growing prefix of the items.
proof fn lemma_parse_file_take_step(items: Seq<Item>, src: Seq<char>, i: int)
    requires
        0 <= i < items.len(),
    ensures
        spec_parse_file(items.take(i + 1), src) == (match spec_parse_file(items.take(i), src) {
            Ok(done) => if is_walked(items[i]) {
                match spec_parse_item(items[i], src) {
                    Ok(r) => Ok::<Seq<RecordV>, WalkError>(done.push(r)),
                    Err(e) => Err::<Seq<RecordV>, WalkError>(e),
                }
            } else {
                Ok::<Seq<RecordV>, WalkError>(done)
            },
            Err(e) => Err::<Seq<RecordV>, WalkError>(e),
        }),
{
    assert(items.take(i + 1).drop_last() =~= items.take(i));
    assert(items.take(i + 1).last() == items[i]);
}

/// An error on a prefix of the items is the result for the whole file.
proof fn lemma_parse_file_err_prefix(items: Seq<Item>, src: Seq<char>, i: int, e: WalkError)
    requires
        0 <= i <= items.len(),
        spec_parse_file(items.take(i), src) == Err::<Seq<RecordV>, WalkError>(e),
    ensures
        spec_parse_file(items, src) == Err::<Seq<RecordV>, WalkError>(e),
    decreases items.len() - i,
{
    if i == items.len() {
        assert(items.take(i) =~= items);
    } else {
        lemma_parse_file_take_step(items, src, i);
        lemma_parse_file_err_prefix(items, src, i + 1, e);
    }
}

/// Walks one file: builds the line-offset table once, filters the items to
/// functions and structs, and assembles their records in source order.
/// Stops at the first unsupported construct with its error; span validity
/// of the items against this source text is the caller's contract (see
/// `check_file`).
pub fn parse_file(items: &Vec<Item>, src: &String) -> (r: Result<Vec<Record>, WalkError>)
    requires
        items_wf(items@, src@),
    ensures
        (match r {
            Ok(recs) => spec_parse_file(items@, src@) == Ok::<Seq<RecordV>, WalkError>(
                records_view(recs@),
            ),
            Err(e) => spec_parse_file(items@, src@) == Err::<Seq<RecordV>, WalkError>(e),
        }),
{
    let table = lines_offsets(src);
    let text = src.as_str();
    let mut out: Vec<Record> = Vec::new();
    assert(spec_parse_file(items@.take(0), src@) == Ok::<Seq<RecordV>, WalkError>(
        records_view(out@),
    )) by {
        assert(items@.take(0) =~= Seq::<Item>::empty());
        assert(records_view(out@) =~= Seq::<RecordV>::empty());
    }
    let mut i: usize = 0;
    while i < items.len()
        invariant
            is_offset_table(table@, src@),
            text@ == src@,
            items_wf(items@, src@),
            i <= items@.len(),
            spec_parse_file(items@.take(i as int), src@) == Ok::<Seq<RecordV>, WalkError>(
                records_view(out@),
            ),
        decreases items@.len() - i,
    {
        let ghost prev = out@;
        let walked = match &items[i] {
            Item::Other => false,
            _ => true,
        };
        if walked {
            match parse_item(&items[i], text, &table) {
                Ok(rec) => {
                    let ghost recv = rec@;
                    out.push(rec);
                    proof {
                        lemma_parse_file_take_step(items@, src@, i as int);
                        assert(records_view(out@) =~= records_view(prev).push(recv));
                    }
                },
                Err(e) => {
                    proof {
                        lemma_parse_file_take_step(items@, src@, i as int);
                        lemma_parse_file_err_prefix(items@, src@, i as int + 1, e);
                    }
                    return Err(e);
                },
            }
        } else {
            proof {
                lemma_parse_file_take_step(items@, src@, i as int);
            }
        }
        i = i + 1;
    }
    assert(items@.take(i as int) =~= items@);
    Ok(out)
}

/// Round-trip determinism: the walk is a function of the parsed items and
/// the source text alone, so two walks of identical input yield identical
/// record lists. Together with the exact contract of `parse_file`, running
/// the walker twice on the same input text gives equal outputs.
pub proof fn lemma_walk_deterministic(items: Seq<Item>, src1: Seq<char>, src2: Seq<char>)
    requires
        src1 == src2,
    ensures
        spec_parse_file(items, src1) == spec_parse_file(items, src2),
{
}

/// A binding pattern the walker understands: a plain name, or a name
/// behind one or more explicit type annotations.
pub open spec fn pat_supported(p: Pat) -> bool {
    pat_name(p) is Some
}

/// A parameter the walker understands: a typed pattern whose binding it
/// understands. A receiver is not supported.
pub open spec fn arg_supported(a: FnArg) -> bool {
    match a {
        FnArg::Typed { pat, .. } => pat_supported(pat),
        FnArg::Receiver => false,
    }
}

/// A function all of whose parameters and discovered locals the walker
/// understands.
pub open spec fn fn_supported(f: ItemFn) -> bool {
    &&& forall|i: int| 0 <= i < f.args@.len() ==> arg_supported(#[trigger] f.args@[i])
    &&& forall|i: int|
        0 <= i < stmts_vars(f.body@).len() ==> pat_supported(
            (#[trigger] stmts_vars(f.body@)[i]).pat,
        )
}

/// A struct all of whose fields are named.
pub open spec fn struct_supported(s: ItemStruct) -> bool {
    forall|i: int| 0 <= i < s.fields@.len() ==> (#[trigger] s.fields@[i]).name is Some
}

/// An item the walk of a file accepts: a fully supported function or
/// struct. Any other item kind is filtered out before assembly, so it can
/// never fail the walk.
pub open spec fn item_supported(it: Item) -> bool {
    match it {
        Item::Fn(f) => fn_supported(f),
        Item::Struct(s) => struct_supported(s),
        Item::Other => true,
    }
}

/// Folding entries succeeds exactly when every single entry does.
proof fn lemma_collect_ok_iff<A, B>(s: Seq<A>, f: spec_fn(A) -> Result<B, WalkError>)
    ensures
        collect_entries(s, f) is Ok <==> (forall|i: int|
            0 <= i < s.len() ==> (#[trigger] f(s[i])) is Ok),
    decreases s.len(),
{
    if s.len() > 0 {
        lemma_collect_ok_iff(s.drop_last(), f);
        if collect_entries(s, f) is Ok {
            assert forall|i: int| 0 <= i < s.len() implies (#[trigger] f(s[i])) is Ok by {
                if i < s.len() - 1 {
                    assert(s.drop_last()[i] == s[i]);
                    assert(f(s.drop_last()[i]) is Ok);
                } else {
                    assert(f(s.last()) is Ok);
                }
            }
        }
        if forall|i: int| 0 <= i < s.len() ==> (#[trigger] f(s[i])) is Ok {
            assert forall|i: int| 0 <= i < s.drop_last().len() implies (#[trigger] f(
                s.drop_last()[i],
            )) is Ok by {
                assert(s.drop_last()[i] == s[i]);
                assert(f(s[i]) is Ok);
            }
            assert(collect_entries(s.drop_last(), f) is Ok);
            assert(f(s.last()) is Ok);
        }
    }
}

/// A function record is built exactly when the walker understands all the
/// function's parameters and every local it discovers in the body.
pub proof fn lemma_parse_function_ok_iff(f: ItemFn, src: Seq<char>)
    ensures
        spec_parse_function(f, src) is Ok <==> fn_supported(f),
{
    let fa = |a: FnArg| arg_entry(a, src);
    let fl = |l: Local| local_entry(l, src);
    let locals = stmts_vars(f.body@);
    lemma_collect_ok_iff(f.args@, fa);
    lemma_collect_ok_iff(locals, fl);
    if spec_parse_function(f, src) is Ok {
        assert forall|i: int| 0 <= i < f.args@.len() implies arg_supported(
            #[trigger] f.args@[i],
        ) by {
            assert(fa(f.args@[i]) is Ok);
        }
        assert forall|i: int| 0 <= i < locals.len() implies pat_supported(
            (#[trigger] locals[i]).pat,
        ) by {
            assert(fl(locals[i]) is Ok);
        }
    }
    if fn_supported(f) {
        assert forall|i: int| 0 <= i < f.args@.len() implies (#[trigger] fa(f.args@[i])) is Ok by {
            assert(arg_supported(f.args@[i]));
        }
        assert forall|i: int| 0 <= i < locals.len() implies (#[trigger] fl(locals[i])) is Ok by {
            assert(pat_supported(locals[i].pat));
        }
        assert(collect_entries(f.args@, fa) is Ok);
        assert(collect_entries(locals, fl) is Ok);
    }
}

/// A record is assembled for an item exactly when the walker walks it at
/// all and understands every construct within it.
pub proof fn lemma_parse_item_ok_iff(it: Item, src: Seq<char>)
    ensures
        spec_parse_item(it, src) is Ok <==> (is_walked(it) && item_supported(it)),
{
    match it {
        Item::Fn(f) => lemma_parse_function_ok_iff(f, src),
        Item::Struct(s) => {
            let ff = |fd: Field| field_entry(fd, src);
            lemma_collect_ok_iff(s.fields@, ff);
            if spec_parse_item(it, src) is Ok {
                assert forall|i: int| 0 <= i < s.fields@.len() implies (#[trigger] s.fields@[i]).name is Some by {
                    assert(ff(s.fields@[i]) is Ok);
                }
            }
            if struct_supported(s) {
                assert forall|i: int| 0 <= i < s.fields@.len() implies (#[trigger] ff(
                    s.fields@[i],
                )) is Ok by {
                    assert(s.fields@[i].name is Some);
                }
                assert(collect_entries(s.fields@, ff) is Ok);
            }
        },
        Item::Other => {},
    }
}

/// The walk of a file succeeds exactly when every function and struct item
/// holds only constructs the walker understands: every binding a plain or
/// typed name, every parameter typed, every field named. Items of any
/// other kind are filtered out and cannot fail the walk.
pub proof fn lemma_parse_file_ok_iff_supported(items: Seq<Item>, src: Seq<char>)
    ensures
        spec_parse_file(items, src) is Ok <==> (forall|i: int|
            0 <= i < items.len() ==> item_supported(#[trigger] items[i])),
    decreases items.len(),
{
    if items.len() > 0 {
        lemma_parse_file_ok_iff_supported(items.drop_last(), src);
        lemma_parse_item_ok_iff(items.last(), src);
        if spec_parse_file(items, src) is Ok {
            assert forall|i: int| 0 <= i < items.len() implies item_supported(
                #[trigger] items[i],
            ) by {
                if i < items.len() - 1 {
                    assert(items.drop_last()[i] == items[i]);
                    assert(item_supported(items.drop_last()[i]));
                } else {
                    assert(item_supported(items.last()));
                }
            }
        }
        if forall|i: int| 0 <= i < items.len() ==> item_supported(#[trigger] items[i]) {
            assert forall|i: int| 0 <= i < items.drop_last().len() implies item_supported(
                #[trigger] items.drop_last()[i],
            ) by {
                assert(items.drop_last()[i] == items[i]);
            }
            assert(spec_parse_file(items.drop_last(), src) is Ok);
            assert(item_supported(items.last()));
        }
    }
}

} // verus!
