//! The tag grammar: quote-aware comma splitting, attribute-list parsing,
//! and classification of a single line as comment, tag or URI.

use vstd::prelude::*;
use crate::hls_structs::{
    Attribute, AttributeV, LineKind, LineKindV, ParseError, Tag, TagBodyV, TagV, attrs_view,
    tag_name_wf,
};
use crate::lines::strs_view;
use crate::text::{find_char, index_of, lemma_find_char, trim, trim_view, has_prefix};

verus! {

/// Splits `s` at commas that stand outside double quotes, `cur` being the
/// component gathered so far and `inq` the quote state. `None` when a quote
/// is left unterminated.
pub open spec fn split_top_rec(s: Seq<char>, cur: Seq<char>, inq: bool) -> Option<Seq<Seq<char>>>
    decreases s.len(),
{
    if s.len() == 0 {
        if inq {
            Option::None
        } else {
            Option::Some(seq![cur])
        }
    } else if s[0] == '"' {
        split_top_rec(s.skip(1), cur.push('"'), !inq)
    } else if s[0] == ',' && !inq {
        match split_top_rec(s.skip(1), Seq::empty(), false) {
            Option::Some(r) => Option::Some(seq![cur] + r),
            Option::None => Option::None,
        }
    } else {
        split_top_rec(s.skip(1), cur.push(s[0]), inq)
    }
}

/// The top-level comma components of `s`, or `None` when a quote is left
/// unterminated.
pub open spec fn split_top(s: Seq<char>) -> Option<Seq<Seq<char>>> {
    split_top_rec(s, Seq::empty(), false)
}

/// The lenient splitter: like [`split_top_rec`], but a quote left open is
/// no failure — the component it starts simply runs to the end of the
/// text.
pub open spec fn split_lenient_rec(s: Seq<char>, cur: Seq<char>, inq: bool) -> Seq<Seq<char>>
    decreases s.len(),
{
    if s.len() == 0 {
        seq![cur]
    } else if s[0] == '"' {
        split_lenient_rec(s.skip(1), cur.push('"'), !inq)
    } else if s[0] == ',' && !inq {
        seq![cur] + split_lenient_rec(s.skip(1), Seq::empty(), false)
    } else {
        split_lenient_rec(s.skip(1), cur.push(s[0]), inq)
    }
}

/// The top-level comma components of `s`, read leniently: an unterminated
/// quote keeps its component open to the end of the text.
pub open spec fn split_components(s: Seq<char>) -> Seq<Seq<char>> {
    split_lenient_rec(s, Seq::empty(), false)
}

/// View of an optional string vector.
pub open spec fn opt_strs_view(r: Option<Vec<String>>) -> Option<Seq<Seq<char>>> {
    match r {
        Option::Some(v) => Option::Some(strs_view(v@)),
        Option::None => Option::None,
    }
}

/// Splits a string at commas outside double quotes; `None` when a quote is
/// left unterminated.
pub fn split_top_level(s: &str) -> (r: Option<Vec<String>>)
    ensures
        opt_strs_view(r) == split_top(s@),
{
    let n = s.unicode_len();
    let mut done: Vec<String> = Vec::new();
    let mut cs: usize = 0;
    let mut i: usize = 0;
    let mut inq: bool = false;
    proof {
        assert(s@.skip(0) =~= s@);
        assert(s@.subrange(0, 0) =~= Seq::<char>::empty());
    }
    while i < n
        invariant
            0 <= cs <= i <= n,
            n == s@.len(),
            split_top(s@) == (match split_top_rec(
                s@.skip(i as int),
                s@.subrange(cs as int, i as int),
                inq,
            ) {
                Option::Some(r) => Option::Some(strs_view(done@) + r),
                Option::None => Option::None::<Seq<Seq<char>>>,
            }),
        decreases n - i,
    {
        let ghost rem = s@.skip(i as int);
        let ghost cur = s@.subrange(cs as int, i as int);
        proof {
            assert(rem[0] == s@[i as int]);
            assert(rem.skip(1) =~= s@.skip(i + 1));
        }
        let c = s.get_char(i);
        if c == '"' {
            proof {
                assert(cur.push('"') =~= s@.subrange(cs as int, i + 1));
            }
            inq = !inq;
            i = i + 1;
        } else if c == ',' && !inq {
            let piece = s.substring_char(cs, i);
            let ghost done0 = done@;
            done.push(piece.to_owned());
            proof {
                assert(strs_view(done@) =~= strs_view(done0).push(cur));
                assert(s@.subrange(i + 1, i + 1) =~= Seq::<char>::empty());
                if split_top_rec(s@.skip(i + 1), Seq::empty(), false) is Some {
                    let r = split_top_rec(s@.skip(i + 1), Seq::empty(), false)->Some_0;
                    assert(strs_view(done0) + (seq![cur] + r) =~= strs_view(done0).push(cur) + r);
                }
            }
            i = i + 1;
            cs = i;
        } else {
            proof {
                assert(cur.push(s@[i as int]) =~= s@.subrange(cs as int, i + 1));
            }
            i = i + 1;
        }
    }
    proof {
        assert(s@.skip(n as int) =~= Seq::<char>::empty());
    }
    if inq {
        return Option::None;
    }
    let piece = s.substring_char(cs, n);
    let ghost done0 = done@;
    let ghost cur = s@.subrange(cs as int, n as int);
    done.push(piece.to_owned());
    proof {
        assert(strs_view(done@) =~= strs_view(done0).push(cur));
        assert(strs_view(done0) + seq![cur] =~= strs_view(done0).push(cur));
    }
    Option::Some(done)
}

/// Splits a string at commas outside double quotes, leniently: a quote
/// left open keeps its component running to the end of the text.
fn split_components_level(s: &str) -> (r: Vec<String>)
    ensures
        strs_view(r@) == split_components(s@),
{
    let n = s.unicode_len();
    let mut done: Vec<String> = Vec::new();
    let mut cs: usize = 0;
    let mut i: usize = 0;
    let mut inq: bool = false;
    proof {
        assert(s@.skip(0) =~= s@);
        assert(s@.subrange(0, 0) =~= Seq::<char>::empty());
    }
    while i < n
        invariant
            0 <= cs <= i <= n,
            n == s@.len(),
            split_components(s@) == strs_view(done@) + split_lenient_rec(
                s@.skip(i as int),
                s@.subrange(cs as int, i as int),
                inq,
            ),
        decreases n - i,
    {
        let ghost rem = s@.skip(i as int);
        let ghost cur = s@.subrange(cs as int, i as int);
        proof {
            assert(rem[0] == s@[i as int]);
            assert(rem.skip(1) =~= s@.skip(i + 1));
        }
        let c = s.get_char(i);
        if c == '"' {
            proof {
                assert(cur.push('"') =~= s@.subrange(cs as int, i + 1));
            }
            inq = !inq;
            i = i + 1;
        } else if c == ',' && !inq {
            let piece = s.substring_char(cs, i);
            let ghost done0 = done@;
            done.push(piece.to_owned());
            proof {
                assert(strs_view(done@) =~= strs_view(done0).push(cur));
                assert(s@.subrange(i + 1, i + 1) =~= Seq::<char>::empty());
                assert(strs_view(done0) + (seq![cur] + split_lenient_rec(
                    s@.skip(i + 1),
                    Seq::empty(),
                    false,
                )) =~= strs_view(done@) + split_lenient_rec(s@.skip(i + 1), Seq::empty(), false));
            }
            i = i + 1;
            cs = i;
        } else {
            proof {
                assert(cur.push(s@[i as int]) =~= s@.subrange(cs as int, i + 1));
            }
            i = i + 1;
        }
    }
    proof {
        assert(s@.skip(n as int) =~= Seq::<char>::empty());
    }
    let piece = s.substring_char(cs, n);
    let ghost done0 = done@;
    let ghost cur = s@.subrange(cs as int, n as int);
    done.push(piece.to_owned());
    proof {
        assert(strs_view(done@) =~= strs_view(done0).push(cur));
        assert(strs_view(done0) + seq![cur] =~= strs_view(done0).push(cur));
    }
    done
}

/// Index of the first `=` of `s` that stands outside double quotes, given
/// the starting quote state `inq`; `s.len()` if there is none.
pub open spec fn find_eq_top(s: Seq<char>, inq: bool) -> int
    decreases s.len(),
{
    if s.len() == 0 {
        0
    } else if s[0] == '=' && !inq {
        0
    } else if s[0] == '"' {
        1 + find_eq_top(s.skip(1), !inq)
    } else {
        1 + find_eq_top(s.skip(1), inq)
    }
}

/// First `=` of `s` outside double quotes, or the length of `s` if none.
fn index_of_eq_top(s: &str) -> (r: usize)
    ensures
        r == find_eq_top(s@, false),
        r <= s@.len(),
{
    let n = s.unicode_len();
    let mut i: usize = 0;
    let mut inq: bool = false;
    proof {
        assert(s@.skip(0) =~= s@);
    }
    while i < n
        invariant
            0 <= i <= n,
            n == s@.len(),
            find_eq_top(s@, false) == i + find_eq_top(s@.skip(i as int), inq),
        decreases n - i,
    {
        let ghost rem = s@.skip(i as int);
        proof {
            assert(rem[0] == s@[i as int]);
            assert(rem.skip(1) =~= s@.skip(i + 1));
        }
        let c = s.get_char(i);
        if c == '=' && !inq {
            return i;
        } else if c == '"' {
            inq = !inq;
            i = i + 1;
        } else {
            i = i + 1;
        }
    }
    proof {
        assert(s@.skip(n as int) =~= Seq::<char>::empty());
    }
    n
}

/// `s` with every double-quote character removed.
pub open spec fn strip_quotes(s: Seq<char>) -> Seq<char>
    decreases s.len(),
{
    if s.len() == 0 {
        Seq::empty()
    } else if s[0] == '"' {
        strip_quotes(s.skip(1))
    } else {
        seq![s[0]] + strip_quotes(s.skip(1))
    }
}

/// Removes every double-quote character from `s`.
fn remove_quotes(s: &str) -> (r: String)
    ensures
        r@ == strip_quotes(s@),
{
    let n = s.unicode_len();
    let mut out = String::new();
    let mut i: usize = 0;
    proof {
        assert(s@.skip(0) =~= s@);
        assert(out@ + strip_quotes(s@) =~= strip_quotes(s@));
    }
    while i < n
        invariant
            0 <= i <= n,
            n == s@.len(),
            strip_quotes(s@) == out@ + strip_quotes(s@.skip(i as int)),
        decreases n - i,
    {
        let ghost rem = s@.skip(i as int);
        proof {
            assert(rem[0] == s@[i as int]);
            assert(rem.skip(1) =~= s@.skip(i + 1));
        }
        let c = s.get_char(i);
        if c != '"' {
            let piece = s.substring_char(i, i + 1);
            proof {
                assert(piece@ =~= seq![s@[i as int]]);
            }
            out.append(piece);
        }
        proof {
            assert(out@ + strip_quotes(s@.skip(i + 1)) =~= strip_quotes(s@));
        }
        i = i + 1;
    }
    proof {
        assert(s@.skip(n as int) =~= Seq::<char>::empty());
        assert(out@ + strip_quotes(s@.skip(n as int)) =~= out@);
    }
    out
}

/// One attribute-list component: the text before the first unquoted `=` is
/// the name, kept verbatim; the text after it is the value, with its quote
/// characters stripped. A component without an unquoted `=` is an error.
pub open spec fn parse_attr_component(comp: Seq<char>) -> Result<AttributeV, ParseError> {
    let j = find_eq_top(comp, false);
    if j >= comp.len() {
        Result::Err(ParseError::AttributeSyntaxError)
    } else {
        Result::Ok(
            AttributeV {
                name: comp.subrange(0, j),
                value: strip_quotes(comp.subrange(j + 1, comp.len() as int)),
            },
        )
    }
}

/// Parses each component in order; the first failure aborts.
pub open spec fn parse_attr_components(comps: Seq<Seq<char>>) -> Result<Seq<AttributeV>, ParseError>
    decreases comps.len(),
{
    if comps.len() == 0 {
        Result::Ok(Seq::empty())
    } else {
        match parse_attr_component(comps[0]) {
            Result::Err(e) => Result::Err(e),
            Result::Ok(a) => match parse_attr_components(comps.skip(1)) {
                Result::Err(e) => Result::Err(e),
                Result::Ok(r) => Result::Ok(seq![a] + r),
            },
        }
    }
}

/// The attribute list denoted by `rest`: its top-level comma components,
/// each parsed as NAME=VALUE. Errors: an unterminated quote, or a component
/// without an unquoted `=`.
pub open spec fn parse_attributes_spec(rest: Seq<char>) -> Result<Seq<AttributeV>, ParseError> {
    match split_top(rest) {
        Option::None => Result::Err(ParseError::AttributeSyntaxError),
        Option::Some(comps) => parse_attr_components(comps),
    }
}

/// View of an attribute-list parse result.
pub open spec fn attrs_result_view(r: Result<Vec<Attribute>, ParseError>) -> Result<
    Seq<AttributeV>,
    ParseError,
> {
    match r {
        Result::Ok(v) => Result::Ok(attrs_view(v@)),
        Result::Err(e) => Result::Err(e),
    }
}

fn parse_components(comps: &Vec<String>) -> (r: Result<Vec<Attribute>, ParseError>)
    ensures
        attrs_result_view(r) == parse_attr_components(strs_view(comps@)),
{
    let mut out: Vec<Attribute> = Vec::new();
    let n = comps.len();
    let mut i: usize = 0;
    proof {
        assert(strs_view(comps@).skip(0) =~= strs_view(comps@));
    }
    while i < n
        invariant
            0 <= i <= n,
            n == comps@.len(),
            parse_attr_components(strs_view(comps@)) == (match parse_attr_components(
                strs_view(comps@).skip(i as int),
            ) {
                Result::Ok(r) => Result::Ok(attrs_view(out@) + r),
                Result::Err(e) => Result::Err::<Seq<AttributeV>, ParseError>(e),
            }),
        decreases n - i,
    {
        let ghost rem = strs_view(comps@).skip(i as int);
        let comp: &String = &comps[i];
        proof {
            assert(rem[0] == comp@);
            assert(rem.skip(1) =~= strs_view(comps@).skip(i + 1));
        }
        let cn = comp.as_str().unicode_len();
        let j = index_of_eq_top(comp.as_str());
        if j >= cn {
            return Result::Err(ParseError::AttributeSyntaxError);
        }
        let name = comp.as_str().substring_char(0, j);
        let rawval = comp.as_str().substring_char(j + 1, cn);
        let value = remove_quotes(rawval);
        let ghost out0 = out@;
        out.push(Attribute::new(name.to_owned(), value));
        proof {
            assert(attrs_view(out@) =~= attrs_view(out0).push(
                AttributeV { name: comp@.subrange(0, j as int), value: strip_quotes(comp@.subrange(j + 1, cn as int)) },
            ));
            if parse_attr_components(strs_view(comps@).skip(i + 1)) is Ok {
                let r = parse_attr_components(strs_view(comps@).skip(i + 1))->Ok_0;
                assert(attrs_view(out0) + (seq![parse_attr_component(rem[0])->Ok_0] + r) =~= attrs_view(
                    out@) + r);
            }
        }
        i = i + 1;
    }
    proof {
        assert(strs_view(comps@).skip(n as int) =~= Seq::<Seq<char>>::empty());
        assert(attrs_view(out@) + Seq::<AttributeV>::empty() =~= attrs_view(out@));
    }
    Result::Ok(out)
}

/// Parses a comma-separated NAME=VALUE list, commas inside double quotes
/// splitting nothing. Source order and duplicates are preserved exactly.
pub fn parse_attributes(rest: &str) -> (r: Result<Vec<Attribute>, ParseError>)
    ensures
        attrs_result_view(r) == parse_attributes_spec(rest@),
{
    match split_top_level(rest) {
        Option::None => Result::Err(ParseError::AttributeSyntaxError),
        Option::Some(comps) => parse_components(&comps),
    }
}

/// Whether an attribute-list component contains a plain `=` before its
/// first double quote: the test that decides VALUE against ATTRIBUTES.
pub open spec fn has_attr_form(comp: Seq<char>) -> bool {
    find_char(comp, '=') < find_char(comp, '"')
}

fn comp_has_attr_form(comp: &str) -> (r: bool)
    ensures
        r == has_attr_form(comp@),
{
    let je = index_of(comp, '=');
    let jq = index_of(comp, '"');
    je < jq
}

/// Whether every component of `comps` has attribute form.
pub open spec fn all_attr_form(comps: Seq<Seq<char>>) -> bool {
    forall|k: int| 0 <= k < comps.len() ==> has_attr_form(comps[k])
}

/// The tag denoted by a `#EXT` line: the name runs from after `#` to the
/// first `:`; without a `:` the body is empty. The rest is an attribute
/// list when every one of its lenient top-level components has a plain `=`
/// before any quote, and one opaque value string otherwise — a stray quote
/// in a value is kept verbatim. On the attribute side the attribute parser
/// decides, so its failures — an unterminated quote among them — surface
/// as `AttributeSyntaxError`. Only a line not beginning `#EXT` is a
/// `TagSyntaxError`.
pub open spec fn parse_tag_spec(line: Seq<char>) -> Result<TagV, ParseError> {
    if !"#EXT"@.is_prefix_of(line) {
        Result::Err(ParseError::TagSyntaxError)
    } else {
        let after = line.skip(1);
        let j = find_char(after, ':');
        if j >= after.len() {
            Result::Ok(TagV { name: after, body: TagBodyV::Empty })
        } else {
            let name = after.subrange(0, j);
            let rest = after.skip(j + 1);
            if all_attr_form(split_components(rest)) {
                match parse_attributes_spec(rest) {
                    Result::Err(e) => Result::Err(e),
                    Result::Ok(l) => Result::Ok(TagV { name, body: TagBodyV::Attributes(l) }),
                }
            } else {
                Result::Ok(TagV { name, body: TagBodyV::Value(rest) })
            }
        }
    }
}

/// View of a tag parse result.
pub open spec fn tag_result_view(r: Result<Tag, ParseError>) -> Result<TagV, ParseError> {
    match r {
        Result::Ok(t) => Result::Ok(t@),
        Result::Err(e) => Result::Err(e),
    }
}

/// Parses one `#EXT` line into a tag.
pub fn parse_tag_line(line: &str) -> (r: Result<Tag, ParseError>)
    ensures
        tag_result_view(r) == parse_tag_spec(line@),
{
    if !has_prefix(line, "#EXT") {
        return Result::Err(ParseError::TagSyntaxError);
    }
    let n = line.unicode_len();
    proof {
        reveal_strlit("#EXT");
    }
    let after = line.substring_char(1, n);
    proof {
        assert(after@ =~= line@.skip(1));
    }
    let an = after.unicode_len();
    let j = index_of(after, ':');
    if j >= an {
        return Result::Ok(Tag::new(after.to_owned(), Option::None, Option::None));
    }
    let name = after.substring_char(0, j);
    let rest = after.substring_char(j + 1, an);
    proof {
        assert(rest@ =~= after@.skip(j + 1));
    }
    let comps = split_components_level(rest);
    let mut all: bool = true;
    let cn = comps.len();
    let mut k: usize = 0;
    while k < cn
        invariant
            0 <= k <= cn,
            cn == comps@.len(),
            all == (forall|m: int| 0 <= m < k ==> has_attr_form(strs_view(comps@)[m])),
        decreases cn - k,
    {
        let ck: &String = &comps[k];
        assert(ck@ == strs_view(comps@)[k as int]);
        if !comp_has_attr_form(ck.as_str()) {
            all = false;
        }
        k = k + 1;
    }
    if all {
        match parse_attributes(rest) {
            Result::Err(e) => Result::Err(e),
            Result::Ok(l) => Result::Ok(Tag::new(name.to_owned(), Option::None, Option::Some(l))),
        }
    } else {
        Result::Ok(Tag::new(name.to_owned(), Option::Some(rest.to_owned()), Option::None))
    }
}

/// Every tag the grammar produces has a well-formed name: non-empty and
/// not beginning with `#`.
pub proof fn lemma_parsed_tag_name_wf(line: Seq<char>)
    ensures
        parse_tag_spec(line) matches Ok(t) ==> tag_name_wf(t.name),
{
    reveal_strlit("#EXT");
    if parse_tag_spec(line) is Ok {
        let after = line.skip(1);
        assert(line.subrange(0, 4) == "#EXT"@);
        assert(line.subrange(0, 4)[1] == line[1]);
        assert(line[1] == 'E');
        assert(after[0] == 'E');
        let j = find_char(after, ':');
        if j < after.len() {
            lemma_find_char(after, ':');
            assert(j != 0);
            assert(after.subrange(0, j)[0] == after[0]);
        }
    }
}

/// Whether a line is a comment: it begins `#` but not `#EXT`.
pub open spec fn is_comment_spec(l: Seq<char>) -> bool {
    "#"@.is_prefix_of(l) && !"#EXT"@.is_prefix_of(l)
}

/// Matches a line against the comment form.
pub fn is_comment(line: &str) -> (r: bool)
    ensures
        r == is_comment_spec(line@),
{
    has_prefix(line, "#") && !has_prefix(line, "#EXT")
}

/// What a single line is: a comment (`#` without `#EXT`), a tag (`#EXT`),
/// or a URI reference carrying the trimmed line text.
pub open spec fn parse_line_spec(l: Seq<char>) -> Result<LineKindV, ParseError> {
    if "#EXT"@.is_prefix_of(l) {
        match parse_tag_spec(l) {
            Result::Err(e) => Result::Err(e),
            Result::Ok(t) => Result::Ok(LineKindV::Tag(t)),
        }
    } else if "#"@.is_prefix_of(l) {
        Result::Ok(LineKindV::Comment)
    } else {
        Result::Ok(LineKindV::Uri(trim_view(l)))
    }
}

/// View of a line parse result.
pub open spec fn line_result_view(r: Result<LineKind, ParseError>) -> Result<
    LineKindV,
    ParseError,
> {
    match r {
        Result::Ok(k) => Result::Ok(k@),
        Result::Err(e) => Result::Err(e),
    }
}

/// Classifies and parses one line.
pub fn parse_line(line: &str) -> (r: Result<LineKind, ParseError>)
    ensures
        line_result_view(r) == parse_line_spec(line@),
{
    if has_prefix(line, "#EXT") {
        match parse_tag_line(line) {
            Result::Err(e) => Result::Err(e),
            Result::Ok(t) => Result::Ok(LineKind::Tag(t)),
        }
    } else if has_prefix(line, "#") {
        Result::Ok(LineKind::Comment)
    } else {
        let t = trim(line);
        Result::Ok(LineKind::Uri(t.to_owned()))
    }
}

} // verus!
