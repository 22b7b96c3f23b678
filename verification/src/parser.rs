//! The parser of Type Language schemas.
//!
//! A schema is a text of definitions that end in `;`. Lines that start
//! with `//` are comments. The markers `---types---` and `---functions---`
//! say what the definitions after them are.

use vstd::prelude::*;
use vstd::string::StringSliceAdditionalSpecFns;

pub mod errors;
pub mod grammar;
pub mod tl;

use crate::parser::errors::{ParseError, ParseErrorView};
use crate::parser::grammar::{
    definition_is, parse_definition, spec_parse_definition, strip_semicolons, without_semicolons,
    SEMICOLON,
};
use crate::parser::tl::{Category, Definition, DefinitionView};
use crate::text::{split, split_on, spec_starts_with, starts_with, trim, trimmed, views};
use crate::tl::wire::{bytes_eq, push_all};

verus! {

/// The line feed.
pub const NEWLINE: u8 = 0x0a;

/// The text `//`.
pub open spec fn comment_mark() -> Seq<u8> {
    seq![0x2fu8, 0x2fu8]
}

/// The text `---functions---`.
pub open spec fn functions_mark() -> Seq<u8> {
    "---functions---".spec_bytes()
}

/// The text `---types---`.
pub open spec fn types_mark() -> Seq<u8> {
    "---types---".spec_bytes()
}

/// The outcome `r` with the category `category` in place of the
/// definition's own.
pub open spec fn with_category(r: Result<DefinitionView, ParseErrorView>, category: Category) -> Result<
    DefinitionView,
    ParseErrorView,
> {
    match r {
        Ok(d) => Ok(DefinitionView { category, ..d }),
        Err(e) => Err(e),
    }
}

/// What the lines `lines` hold, read under the category `category` with the
/// unfinished definition `pending` before them. Blank lines and comments are
/// passed over; a marker changes the category; every other line, trimmed,
/// is added to the unfinished definition behind a space, and where it ends
/// in `;` the definition is read, unless nothing but semicolons is left of
/// it. An unfinished definition at the end is dropped.
pub open spec fn spec_scan(lines: Seq<Seq<u8>>, category: Category, pending: Seq<u8>) -> Seq<
    Result<DefinitionView, ParseErrorView>,
>
    decreases lines.len(),
{
    if lines.len() == 0 {
        Seq::empty()
    } else {
        let line = trim(lines[0]);
        let rest = lines.skip(1);
        if line.len() == 0 || spec_starts_with(line, comment_mark()) {
            spec_scan(rest, category, pending)
        } else if line == functions_mark() {
            spec_scan(rest, Category::Functions, pending)
        } else if line == types_mark() {
            spec_scan(rest, Category::Types, pending)
        } else {
            let grown = pending + seq![0x20u8] + line;
            if line.last() != SEMICOLON {
                spec_scan(rest, category, grown)
            } else {
                let raw = trim(strip_semicolons(trim(grown)));
                if raw.len() == 0 {
                    spec_scan(rest, category, Seq::empty())
                } else {
                    seq![with_category(spec_parse_definition(raw), category)] + spec_scan(
                        rest,
                        category,
                        Seq::empty(),
                    )
                }
            }
        }
    }
}

/// What the schema `contents` holds: for each definition in it what
/// reading the definition gives.
pub open spec fn spec_parse_file(contents: Seq<u8>) -> Seq<Result<DefinitionView, ParseErrorView>> {
    spec_scan(split_on(contents, NEWLINE), Category::Types, Seq::empty())
}

/// The outcomes `v` as contracts see them.
pub open spec fn outcomes(v: Seq<Result<Definition, ParseError>>) -> Seq<
    Result<DefinitionView, ParseErrorView>,
> {
    Seq::new(
        v.len(),
        |i: int|
            match v[i] {
                Ok(d) => Ok(d@),
                Err(e) => Err(e@),
            },
    )
}

/// Reads a schema: for each definition in it, in order, the definition or
/// the reason why it could not be read.
pub fn parse_tl_file(contents: &str) -> (out: Vec<Result<Definition, ParseError>>)
    ensures
        outcomes(out@) == spec_parse_file(contents.spec_bytes()),
{
    let lines = split(contents.as_bytes(), NEWLINE);
    let mut out: Vec<Result<Definition, ParseError>> = Vec::new();
    let mut category = Category::Types;
    let mut pending: Vec<u8> = Vec::new();
    let mut i: usize = 0;
    let ghost all = views(lines@);
    assert(all.skip(0) =~= all);
    assert(outcomes(out@) =~= Seq::<Result<DefinitionView, ParseErrorView>>::empty());
    while i < lines.len()
        invariant
            i <= lines.len(),
            all == views(lines@),
            spec_scan(all, Category::Types, Seq::empty()) == outcomes(out@) + spec_scan(
                all.skip(i as int),
                category,
                pending@,
            ),
        decreases lines.len() - i,
    {
        let ghost rest = all.skip(i as int);
        let ghost before = outcomes(out@);
        assert(rest[0] == lines@[i as int]@);
        assert(rest.skip(1) =~= all.skip(i as int + 1));
        let line = trimmed(lines[i].as_slice());
        let comment: [u8; 2] = [0x2f, 0x2f];
        assert(comment@ =~= comment_mark());
        if line.len() == 0 || starts_with(line.as_slice(), comment.as_slice()) {
        } else if bytes_eq(line.as_slice(), "---functions---".as_bytes()) {
            category = Category::Functions;
        } else if bytes_eq(line.as_slice(), "---types---".as_bytes()) {
            category = Category::Types;
        } else {
            let ghost old_pending = pending@;
            pending.push(0x20u8);
            push_all(&mut pending, line.as_slice());
            assert(pending@ =~= old_pending + seq![0x20u8] + line@);
            if line[line.len() - 1] == SEMICOLON {
                let t1 = trimmed(pending.as_slice());
                let t2 = without_semicolons(t1.as_slice());
                let raw = trimmed(t2.as_slice());
                pending = Vec::new();
                if raw.len() > 0 {
                    let result = match parse_definition(raw.as_slice()) {
                        Ok(mut d) => {
                            let ghost d0 = d@;
                            d.category = category;
                            assert(d@ == (DefinitionView { category, ..d0 }));
                            Ok(d)
                        },
                        Err(e) => Err(e),
                    };
                    let ghost expected = with_category(spec_parse_definition(raw@), category);
                    assert(match result {
                        Ok(d) => expected == Ok::<DefinitionView, ParseErrorView>(d@),
                        Err(e) => expected == Err::<DefinitionView, ParseErrorView>(e@),
                    });
                    out.push(result);
                    let ghost rv = outcomes(out@).last();
                    assert(rv == expected);
                    proof {
                        assert(outcomes(out@) =~= before.push(rv));
                        let tail = spec_scan(all.skip(i as int + 1), category, Seq::empty());
                        assert(before + (seq![rv] + tail) =~= before.push(rv) + tail);
                    }
                }
            }
        }
        i += 1;
    }
    assert(all.skip(lines.len() as int) =~= Seq::<Seq<u8>>::empty());
    assert(outcomes(out@) + Seq::<Result<DefinitionView, ParseErrorView>>::empty() =~= outcomes(
        out@,
    ));
    out
}

} // verus!
