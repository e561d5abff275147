//! The message codec: composing tags, source and payload into one wire
//! line, and decomposing a wire line back into them. A line is
//! `['@' tags ' '] [':' source ' '] verb [' ' param]*` where the final
//! parameter may be marked with `:` and is the only one allowed to contain
//! spaces; the whole line is CRLF-terminated on the wire.

use vstd::prelude::*;
use vstd::string::StrSliceExecFns;
use vstd::string::StringSliceAdditionalSpecFns;
use vstd::string::StringExecFns;
use vstd::utf8::valid_utf8;
use vstd::utf8::decode_utf8;
use vstd::utf8::encode_utf8_decode_utf8;
use crate::command::decodes_to;
use crate::command::wire_params;
use crate::command::wire_verb;
use crate::text::contains_char;
use crate::text::find_char;
use crate::text::find_marker;
use crate::text::first_index_of;
use crate::text::first_marker_index;
use crate::text::join_with;
use crate::text::lemma_first_index_of;
use crate::text::lemma_first_marker_index;
use crate::text::split_all;
use crate::text::split_on_char;
use crate::types::Command;
use crate::types::Message;
use crate::types::Source;
use crate::types::Tag;
use crate::types::TagKey;

verus! {

/// Relies on str::from_utf8: it succeeds exactly on valid UTF-8 input and
/// yields the string that those bytes encode.
#[verifier::external_body]
fn utf8_to_str(src: &[u8]) -> (r: Option<&str>)
    ensures
        r is Some <==> valid_utf8(src@),
        r matches Some(s) ==> s.spec_bytes() == src@,
{
    core::str::from_utf8(src).ok()
}

/// Write one tag's wire text onto the end of `output`.
fn write_tag(output: &mut String, t: &Tag)
    ensures
        final(output)@ == old(output)@ + encode_tag(*t),
{
    if let Some(p) = &t.key.client_prefix {
        output.append(p.as_str());
    }
    if let Some(v) = &t.key.vendor {
        output.append(v.as_str());
        push_char(output, '/');
    }
    output.append(t.key.value.as_str());
    if let Some(val) = &t.value {
        push_char(output, '=');
        output.append(val.as_str());
    }
    proof {
        assert(output@ =~= old(output)@ + encode_tag(*t));
    }
}

/// Relies on String::push: it appends exactly one character.
#[verifier::external_body]
fn push_char(out: &mut String, c: char)
    ensures
        final(out)@ == old(out)@ + seq![c],
{
    out.push(c);
}

/// The wire text of a tag key: the client prefix verbatim if present, then
/// `vendor/` if present, then the bare key name.
pub open spec fn encode_tag_key(k: TagKey) -> Seq<char> {
    (match k.client_prefix {
        Some(p) => p@,
        None => Seq::<char>::empty(),
    }) + (match k.vendor {
        Some(v) => v@ + seq!['/'],
        None => Seq::<char>::empty(),
    }) + k.value@
}

/// The wire text of a tag: its key, then `=value` if a value is present.
pub open spec fn encode_tag(t: Tag) -> Seq<char> {
    encode_tag_key(t.key) + (match t.value {
        Some(v) => seq!['='] + v@,
        None => Seq::<char>::empty(),
    })
}

/// The wire text of a tag sequence: the tags joined by `;`.
pub open spec fn encode_tags(tags: Seq<Tag>) -> Seq<char> {
    join_with(tags.map_values(|t: Tag| encode_tag(t)), ';')
}

/// The wire text of a source, without its leading `:`.
pub open spec fn encode_source(s: Source) -> Seq<char> {
    s.name@ + (match s.user {
        Some(u) => seq!['!'] + u@,
        None => Seq::<char>::empty(),
    }) + (match s.host {
        Some(h) => seq!['@'] + h@,
        None => Seq::<char>::empty(),
    })
}

/// One rendered parameter: a leading space, and a `:` mark exactly when the
/// parameter contains a space.
pub open spec fn render_param(p: Seq<char>) -> Seq<char> {
    if p.contains(' ') {
        seq![' ', ':'] + p
    } else {
        seq![' '] + p
    }
}

/// The rendered parameter section: each parameter rendered in order.
pub open spec fn render_params(ps: Seq<Seq<char>>) -> Seq<char>
    decreases ps.len(),
{
    if ps.len() == 0 {
        Seq::<char>::empty()
    } else {
        render_param(ps[0]) + render_params(ps.skip(1))
    }
}

/// The full wire line of a message, without the CRLF terminator.
pub open spec fn encode_message_body(m: Message) -> Seq<char> {
    (match m.tags {
        Some(tags) => seq!['@'] + encode_tags(tags@) + seq![' '],
        None => Seq::<char>::empty(),
    }) + (match m.source {
        Some(src) => seq![':'] + encode_source(src) + seq![' '],
        None => Seq::<char>::empty(),
    }) + wire_verb(m.command) + render_params(wire_params(m.command))
}

/// The full wire line of a message, CRLF-terminated.
pub open spec fn encode_message(m: Message) -> Seq<char> {
    encode_message_body(m) + seq!['\r', '\n']
}

/// What parsing a tag key yields: a `+` prefix is stripped and recorded,
/// then the remainder splits at its first `=` into vendor and name, or is
/// the bare name when no `=` occurs.
pub open spec fn tag_key_decodes_to(text: Seq<char>, k: TagKey) -> bool {
    let has_plus = text.len() > 0 && text[0] == '+';
    let stripped = if has_plus {
        text.skip(1)
    } else {
        text
    };
    let i = first_index_of(stripped, '=');
    &&& (match k.client_prefix {
        Some(p) => has_plus && p@ == seq!['+'],
        None => !has_plus,
    })
    &&& if i < stripped.len() {
        &&& k.vendor matches Some(v) && v@ == stripped.take(i)
        &&& k.value@ == stripped.skip(i + 1)
    } else {
        &&& k.vendor is None
        &&& k.value@ == stripped
    }
}

/// What parsing a tag yields: the text splits at its first `=` into key and
/// verbatim value, or is all key when no `=` occurs.
pub open spec fn tag_decodes_to(text: Seq<char>, t: Tag) -> bool {
    let i = first_index_of(text, '=');
    if i < text.len() {
        &&& tag_key_decodes_to(text.take(i), t.key)
        &&& t.value matches Some(v) && v@ == text.skip(i + 1)
    } else {
        &&& tag_key_decodes_to(text, t.key)
        &&& t.value is None
    }
}

/// What parsing a tag section yields: one tag per `;`-separated piece, in
/// order.
pub open spec fn tags_decode_to(text: Seq<char>, tags: Seq<Tag>) -> bool {
    let pieces = split_all(text, ';');
    &&& tags.len() == pieces.len()
    &&& forall|k: int| 0 <= k < pieces.len() ==> tag_decodes_to(pieces[k], #[trigger] tags[k])
}

/// What parsing a source yields: an optional host after the first `@`, an
/// optional user after the first `!` of what precedes it, and the rest is
/// the name. Parsing never fails: any text is some source.
pub open spec fn source_decodes_to(text: Seq<char>, s: Source) -> bool {
    let a = first_index_of(text, '@');
    let left = if a < text.len() {
        text.take(a)
    } else {
        text
    };
    let b = first_index_of(left, '!');
    &&& (match s.host {
        Some(h) => a < text.len() && h@ == text.skip(a + 1),
        None => a >= text.len(),
    })
    &&& (match s.user {
        Some(u) => b < left.len() && u@ == left.skip(b + 1),
        None => b >= left.len(),
    })
    &&& s.name@ == (if b < left.len() {
        left.take(b)
    } else {
        left
    })
}

/// The parameter list a parameter section denotes: if the trailing marker
/// ` :` occurs, what precedes it is space-split and what follows it is one
/// final verbatim parameter; otherwise the whole section is space-split.
pub open spec fn parse_params(tail: Seq<char>) -> Seq<Seq<char>> {
    let j = first_marker_index(tail, ' ', ':');
    if j < tail.len() {
        split_all(tail.take(j), ' ').push(tail.skip(j + 2))
    } else {
        split_all(tail, ' ')
    }
}

/// Appending one more parameter to a rendered section appends its rendered
/// form.
pub proof fn lemma_render_params_push(ps: Seq<Seq<char>>, x: Seq<char>)
    ensures
        render_params(ps.push(x)) == render_params(ps) + render_param(x),
    decreases ps.len(),
{
    if ps.len() == 0 {
        assert(ps.push(x)[0] == x);
        assert(ps.push(x).skip(1) =~= Seq::<Seq<char>>::empty());
        assert(render_params(ps.push(x)) == render_param(x) + render_params(
            Seq::<Seq<char>>::empty(),
        ));
        assert(render_param(x) + Seq::<char>::empty() =~= render_param(x));
        assert(render_params(ps) + render_param(x) =~= render_param(x));
    } else {
        lemma_render_params_push(ps.skip(1), x);
        assert(ps.push(x)[0] == ps[0]);
        assert(ps.push(x).skip(1) =~= ps.skip(1).push(x));
        assert(render_params(ps) == render_param(ps[0]) + render_params(ps.skip(1)));
        assert(render_params(ps.push(x)) == render_param(ps[0]) + render_params(
            ps.skip(1).push(x),
        ));
        assert(render_param(ps[0]) + (render_params(ps.skip(1)) + render_param(x)) =~= (
        render_param(ps[0]) + render_params(ps.skip(1))) + render_param(x));
    }
}

/// Whether the line opens with a tag section.
pub open spec fn has_tag_section(line: Seq<char>) -> bool {
    line.len() > 0 && line[0] == '@'
}

/// The line after its tag section, if any.
pub open spec fn after_tags(line: Seq<char>) -> Seq<char> {
    if has_tag_section(line) {
        line.skip(first_index_of(line, ' ') + 1)
    } else {
        line
    }
}

/// Whether the remainder opens with a source section.
pub open spec fn has_source_section(rest: Seq<char>) -> bool {
    rest.len() > 0 && rest[0] == ':'
}

/// The remainder after its source section, if any.
pub open spec fn after_source(rest: Seq<char>) -> Seq<char> {
    if has_source_section(rest) {
        rest.skip(first_index_of(rest, ' ') + 1)
    } else {
        rest
    }
}

/// A line is well shaped when each of its tag and source sections, if
/// present, is followed by a space. These are the only grammar failures:
/// anything else decodes, an unrecognised verb included.
pub open spec fn line_shape_ok(line: Seq<char>) -> bool {
    &&& has_tag_section(line) ==> first_index_of(line, ' ') < line.len()
    &&& has_source_section(after_tags(line)) ==> first_index_of(after_tags(line), ' ')
        < after_tags(line).len()
}

/// The verb or code token of the command section: up to the first space, or
/// the whole section.
pub open spec fn verb_of(s: Seq<char>) -> Seq<char> {
    let i = first_index_of(s, ' ');
    if i < s.len() {
        s.take(i)
    } else {
        s
    }
}

/// The raw parameter list of the command section: empty when no space
/// follows the verb.
pub open spec fn params_of(s: Seq<char>) -> Seq<Seq<char>> {
    let i = first_index_of(s, ' ');
    if i < s.len() {
        parse_params(s.skip(i + 1))
    } else {
        Seq::<Seq<char>>::empty()
    }
}

/// What decoding a whole line yields: tags and source exactly when their
/// sections are present, and the payload decoded from the verb and
/// parameter section by the registry.
pub open spec fn message_decodes_to(line: Seq<char>, m: Message) -> bool {
    let rest = after_tags(line);
    let cmdtext = after_source(rest);
    &&& line_shape_ok(line)
    &&& (match m.tags {
        Some(tags) => has_tag_section(line) && tags_decode_to(
            line.subrange(1, first_index_of(line, ' ')),
            tags@,
        ),
        None => !has_tag_section(line),
    })
    &&& (match m.source {
        Some(src) => has_source_section(rest) && source_decodes_to(
            rest.subrange(1, first_index_of(rest, ' ')),
            src,
        ),
        None => !has_source_section(rest),
    })
    &&& decodes_to(verb_of(cmdtext), params_of(cmdtext), m.command)
}

/// A decoded tag re-encodes to the very text it was parsed from.
pub proof fn lemma_encode_tag_inverse(text: Seq<char>, t: Tag)
    requires
        tag_decodes_to(text, t),
    ensures
        encode_tag(t) == text,
{
    lemma_first_index_of(text, '=');
    let i = first_index_of(text, '=');
    let kt = if i < text.len() {
        text.take(i)
    } else {
        text
    };
    // The key text ends at the first `=`, so it holds none itself.
    assert(forall|j: int| 0 <= j < kt.len() ==> kt[j] == text[j]);
    let has_plus = kt.len() > 0 && kt[0] == '+';
    let stripped = if has_plus {
        kt.skip(1)
    } else {
        kt
    };
    assert(forall|j: int| 0 <= j < stripped.len() ==> stripped[j] != '=') by {
        if has_plus {
            assert(forall|j: int| 0 <= j < stripped.len() ==> stripped[j] == kt[j + 1]);
        }
    }
    crate::text::lemma_first_index_of_is(stripped, '=', stripped.len() as int);
    assert(encode_tag_key(t.key) == kt) by {
        if has_plus {
            assert(t.key.client_prefix matches Some(p) && p@ == seq!['+']);
            assert(seq!['+'] + stripped =~= kt);
            assert(encode_tag_key(t.key) =~= seq!['+'] + stripped);
        } else {
            assert(encode_tag_key(t.key) =~= stripped);
        }
    }
    if i < text.len() {
        assert(text[i] == '=');
        assert(encode_tag(t) =~= kt + seq!['='] + text.skip(i + 1));
        assert(kt + seq!['='] + text.skip(i + 1) =~= text);
    } else {
        assert(encode_tag(t) =~= kt);
    }
}

/// A decoded tag section re-encodes to the very text it was parsed from.
pub proof fn lemma_encode_tags_inverse(text: Seq<char>, tags: Seq<Tag>)
    requires
        tags_decode_to(text, tags),
    ensures
        encode_tags(tags) == text,
{
    let pieces = split_all(text, ';');
    let f = |t: Tag| encode_tag(t);
    assert forall|k: int| 0 <= k < pieces.len() implies #[trigger] tags.map_values(f)[k]
        == pieces[k] by {
        lemma_encode_tag_inverse(pieces[k], tags[k]);
    }
    assert(tags.map_values(f) =~= pieces);
    crate::text::lemma_join_split(text, ';');
}

/// A decoded source re-encodes to the very text it was parsed from.
pub proof fn lemma_encode_source_inverse(text: Seq<char>, s: Source)
    requires
        source_decodes_to(text, s),
    ensures
        encode_source(s) == text,
{
    lemma_first_index_of(text, '@');
    let a = first_index_of(text, '@');
    let left = if a < text.len() {
        text.take(a)
    } else {
        text
    };
    lemma_first_index_of(left, '!');
    let b = first_index_of(left, '!');
    let name_user = if b < left.len() {
        left.take(b) + seq!['!'] + left.skip(b + 1)
    } else {
        left
    };
    assert(s.name@ + (match s.user {
        Some(u) => seq!['!'] + u@,
        None => Seq::<char>::empty(),
    }) =~= name_user);
    if b < left.len() {
        assert(left[b] == '!');
        assert(name_user =~= left);
    }
    if a < text.len() {
        assert(text[a] == '@');
        assert(encode_source(s) =~= left + seq!['@'] + text.skip(a + 1));
        assert(left + seq!['@'] + text.skip(a + 1) =~= text);
    } else {
        assert(encode_source(s) =~= left);
    }
}

/// Rendering parameters whose pieces hold no space reproduces their join.
proof fn lemma_render_no_space(pieces: Seq<Seq<char>>)
    requires
        pieces.len() >= 1,
        forall|k: int| 0 <= k < pieces.len() ==> !(#[trigger] pieces[k]).contains(' '),
    ensures
        render_params(pieces) == seq![' '] + join_with(pieces, ' '),
    decreases pieces.len(),
{
    if pieces.len() == 1 {
        assert(render_params(pieces) == render_param(pieces[0]) + render_params(pieces.skip(1)));
        assert(pieces.skip(1).len() == 0);
        assert(render_params(pieces) =~= seq![' '] + pieces[0]);
    } else {
        lemma_render_no_space(pieces.skip(1));
        assert(render_params(pieces) == render_param(pieces[0]) + render_params(pieces.skip(1)));
        assert(render_params(pieces) =~= seq![' '] + (pieces[0] + seq![' '] + join_with(
            pieces.skip(1),
            ' ',
        )));
    }
}

/// The normalization is confined to the trailing-parameter mark: rendering
/// the parse of a parameter section reproduces it verbatim, except that a
/// ` :` before a final parameter without spaces collapses to one space.
pub proof fn lemma_render_parse_params(tail: Seq<char>)
    ensures
        ({
            let j = first_marker_index(tail, ' ', ':');
            if j >= tail.len() {
                render_params(parse_params(tail)) == seq![' '] + tail
            } else if tail.skip(j + 2).contains(' ') {
                render_params(parse_params(tail)) == seq![' '] + tail
            } else {
                render_params(parse_params(tail)) == seq![' '] + tail.take(j) + seq![' ']
                    + tail.skip(j + 2)
            }
        }),
{
    lemma_first_marker_index(tail, ' ', ':');
    let j = first_marker_index(tail, ' ', ':');
    if j >= tail.len() {
        crate::text::lemma_split_all_no_sep(tail, ' ');
        crate::text::lemma_split_all_len(tail, ' ');
        lemma_render_no_space(split_all(tail, ' '));
        crate::text::lemma_join_split(tail, ' ');
    } else {
        let middle = tail.take(j);
        let trailing = tail.skip(j + 2);
        crate::text::lemma_split_all_no_sep(middle, ' ');
        crate::text::lemma_split_all_len(middle, ' ');
        lemma_render_no_space(split_all(middle, ' '));
        crate::text::lemma_join_split(middle, ' ');
        lemma_render_params_push(split_all(middle, ' '), trailing);
        assert(tail[j] == ' ' && tail[j + 1] == ':');
        assert(render_params(parse_params(tail)) == (seq![' '] + middle) + render_param(trailing));
        if trailing.contains(' ') {
            assert((seq![' '] + middle) + (seq![' ', ':'] + trailing) =~= seq![' '] + tail);
        } else {
            assert((seq![' '] + middle) + (seq![' '] + trailing) =~= seq![' '] + middle + seq![' ']
                + trailing);
        }
    }
}

/// Whether the parsed parameters of a command section fit the registered
/// arity of its verb: fewer than required (the catch-all preserves them),
/// within the admissible count, or any count for a tail variant or an
/// unrecognised verb. Parameters beyond what a variant can hold are
/// dropped by decoding and cannot round-trip.
pub open spec fn params_fit(cmdtext: Seq<char>) -> bool {
    let verb = verb_of(cmdtext);
    let ps = params_of(cmdtext);
    match crate::command::registry_shape(verb) {
        Some(shape) => ps.len() < shape.0 || shape.2 || ps.len() <= shape.0 + shape.1,
        None => true,
    }
}

/// A decoded line with its parameter section re-rendered: everything up to
/// and including the verb stays verbatim, and the parameters keep their
/// text with the trailing `:` mark present exactly when the final
/// parameter contains a space.
pub open spec fn normalize_line(line: Seq<char>) -> Seq<char> {
    let rest = after_tags(line);
    let cmdtext = after_source(rest);
    let head = line.take(line.len() - cmdtext.len());
    let i = first_index_of(cmdtext, ' ');
    if i < cmdtext.len() {
        head + cmdtext.take(i) + render_params(parse_params(cmdtext.skip(i + 1)))
    } else {
        head + cmdtext
    }
}

/// Round trip: every line that decodes to a message re-encodes, CRLF
/// restored, to the very same line up to the trailing-parameter `:`
/// normalization that `normalize_line` pins down — provided the parameter
/// count fits what the decoded variant can hold, since a registered verb
/// given more parameters than its slots drops the excess.
pub proof fn lemma_round_trip(line: Seq<char>, m: Message)
    requires
        message_decodes_to(line, m),
        params_fit(after_source(after_tags(line))),
    ensures
        encode_message(m) == normalize_line(line) + seq!['\r', '\n'],
{
    let rest = after_tags(line);
    let cmdtext = after_source(rest);
    lemma_first_index_of(line, ' ');
    lemma_first_index_of(rest, ' ');
    lemma_first_index_of(cmdtext, ' ');
    let tags_part = (match m.tags {
        Some(tags) => seq!['@'] + encode_tags(tags@) + seq![' '],
        None => Seq::<char>::empty(),
    });
    let source_part = (match m.source {
        Some(src) => seq![':'] + encode_source(src) + seq![' '],
        None => Seq::<char>::empty(),
    });
    // The tag section reconstructs verbatim.
    assert(line == tags_part + rest) by {
        match m.tags {
            Some(tags) => {
                let i0 = first_index_of(line, ' ');
                lemma_encode_tags_inverse(line.subrange(1, i0), tags@);
                assert(line[0] == '@' && line[i0] == ' ');
                assert(seq!['@'] + line.subrange(1, i0) + seq![' '] + line.skip(i0 + 1) =~= line);
            },
            None => {
                assert(tags_part + rest =~= rest);
            },
        }
    }
    // The source section reconstructs verbatim.
    assert(rest == source_part + cmdtext) by {
        match m.source {
            Some(src) => {
                let i1 = first_index_of(rest, ' ');
                lemma_encode_source_inverse(rest.subrange(1, i1), src);
                assert(rest[0] == ':' && rest[i1] == ' ');
                assert(seq![':'] + rest.subrange(1, i1) + seq![' '] + rest.skip(i1 + 1) =~= rest);
            },
            None => {
                assert(source_part + cmdtext =~= cmdtext);
            },
        }
    }
    // The registry preserves the verb and, under the fit condition, the
    // parameter list.
    assert(wire_verb(m.command) == verb_of(cmdtext) && wire_params(m.command) == params_of(
        cmdtext,
    )) by {
        let verb = verb_of(cmdtext);
        let ps = params_of(cmdtext);
        match crate::command::registry_shape(verb) {
            Some(shape) => {
                if ps.len() < shape.0 {
                    crate::command::lemma_arity_shortfall(verb, ps, m.command);
                } else {
                    crate::command::lemma_registry_inverse(verb, ps, m.command);
                }
            },
            None => {},
        }
    }
    // Assemble: the head of the line is exactly the re-encoded tag and
    // source sections, and the command section re-renders.
    let head = line.take(line.len() - cmdtext.len());
    assert(head == tags_part + source_part) by {
        assert(line =~= (tags_part + source_part) + cmdtext);
        assert(line.take(line.len() - cmdtext.len()) =~= tags_part + source_part);
    }
    let i2 = first_index_of(cmdtext, ' ');
    if i2 < cmdtext.len() {
        assert(encode_message_body(m) =~= (tags_part + source_part) + cmdtext.take(i2)
            + render_params(parse_params(cmdtext.skip(i2 + 1))));
        assert(normalize_line(line) =~= (tags_part + source_part) + cmdtext.take(i2)
            + render_params(parse_params(cmdtext.skip(i2 + 1))));
    } else {
        assert(render_params(params_of(cmdtext)) =~= Seq::<char>::empty());
        assert(encode_message_body(m) =~= (tags_part + source_part) + cmdtext);
        assert(normalize_line(line) =~= (tags_part + source_part) + cmdtext);
    }
    assert(encode_message(m) =~= normalize_line(line) + seq!['\r', '\n']);
}

impl Message {
    /// A message assembled from its parts.
    pub fn new(tags: Option<Vec<Tag>>, source: Option<Source>, command: Command) -> (m: Message)
        ensures
            m == (Message { tags, source, command }),
    {
        Message { tags, source, command }
    }

    /// Serialize this message into its CRLF-terminated wire line. The
    /// trailing `:` mark is emitted exactly when a parameter contains a
    /// space; a parameter with a space anywhere but last would not survive
    /// a round trip, which is the caller-side ordering invariant carried by
    /// how payload fields are laid out.
    pub fn to_bytes(self) -> (r: String)
        ensures
            r@ == encode_message(self),
    {
        let mut output = String::new();
        if let Some(tags) = &self.tags {
            push_char(&mut output, '@');
            let ghost f = |t: Tag| encode_tag(t);
            let mut k: usize = 0;
            proof {
                assert(tags@.take(0).map_values(f) =~= Seq::<Seq<char>>::empty());
            }
            while k < tags.len()
                invariant
                    k <= tags@.len(),
                    f == (|t: Tag| encode_tag(t)),
                    output@ == seq!['@'] + join_with(tags@.take(k as int).map_values(f), ';'),
                decreases tags@.len() - k,
            {
                let ghost prev = output@;
                if k > 0 {
                    push_char(&mut output, ';');
                }
                write_tag(&mut output, &tags[k]);
                proof {
                    let pieces = tags@.take(k as int).map_values(f);
                    assert(tags@.take(k as int + 1).map_values(f) =~= pieces.push(
                        f(tags@[k as int]),
                    ));
                    if k == 0 {
                        assert(join_with(pieces.push(f(tags@[0])), ';') == f(tags@[0]));
                        assert(output@ =~= seq!['@'] + join_with(
                            tags@.take(1).map_values(f),
                            ';',
                        ));
                    } else {
                        crate::text::lemma_join_push(pieces, f(tags@[k as int]), ';');
                        assert(output@ =~= seq!['@'] + join_with(
                            tags@.take(k as int + 1).map_values(f),
                            ';',
                        ));
                    }
                }
                k = k + 1;
            }
            proof {
                assert(tags@.take(tags@.len() as int) =~= tags@);
            }
            push_char(&mut output, ' ');
        }
        proof {
            assert(output@ =~= (match self.tags {
                Some(tags) => seq!['@'] + encode_tags(tags@) + seq![' '],
                None => Seq::<char>::empty(),
            }));
        }
        let ghost tags_part = output@;
        if let Some(src) = &self.source {
            push_char(&mut output, ':');
            output.append(src.name.as_str());
            if let Some(u) = &src.user {
                push_char(&mut output, '!');
                output.append(u.as_str());
            }
            if let Some(h) = &src.host {
                push_char(&mut output, '@');
                output.append(h.as_str());
            }
            push_char(&mut output, ' ');
        }
        proof {
            assert(output@ =~= tags_part + (match self.source {
                Some(src) => seq![':'] + encode_source(src) + seq![' '],
                None => Seq::<char>::empty(),
            }));
        }
        let verb = self.command.command();
        output.append(verb.as_str());
        let params = self.command.params();
        let ghost wp = wire_params(self.command);
        let ghost prefix = output@;
        let mut k: usize = 0;
        proof {
            assert(render_params(wp.take(0)) =~= Seq::<char>::empty());
            assert(output@ =~= prefix + render_params(wp.take(0)));
        }
        while k < params.len()
            invariant
                k <= params@.len(),
                params.deep_view() == wp,
                output@ == prefix + render_params(wp.take(k as int)),
            decreases params@.len() - k,
        {
            push_char(&mut output, ' ');
            if contains_char(params[k].as_str(), ' ') {
                push_char(&mut output, ':');
            }
            output.append(params[k].as_str());
            proof {
                lemma_render_params_push(wp.take(k as int), wp[k as int]);
                assert(wp.take(k as int).push(wp[k as int]) =~= wp.take(k as int + 1));
                assert(output@ =~= prefix + render_params(wp.take(k as int + 1)));
            }
            k = k + 1;
        }
        proof {
            assert(wp.take(params@.len() as int) =~= wp);
        }
        push_char(&mut output, '\r');
        push_char(&mut output, '\n');
        proof {
            assert(output@ =~= encode_message(self));
        }
        output
    }

    /// Parse one tag key. Total: any text yields a key.
    pub fn parse_key(input: &str) -> (r: Result<TagKey, ()>)
        ensures
            r matches Ok(k) && tag_key_decodes_to(input@, k),
    {
        let n = input.unicode_len();
        let has_plus = n > 0 && input.get_char(0) == '+';
        let client_prefix: Option<String>;
        let rest: &str;
        if has_plus {
            let p = "+".to_owned();
            proof {
                reveal_strlit("+");
                assert(p@ =~= seq!['+']);
            }
            client_prefix = Some(p);
            rest = input.substring_char(1, n);
        } else {
            client_prefix = None;
            rest = input;
        }
        let m = rest.unicode_len();
        let i = find_char(rest, '=');
        if i < m {
            Ok(
                TagKey {
                    client_prefix,
                    vendor: Some(rest.substring_char(0, i).to_owned()),
                    value: rest.substring_char(i + 1, m).to_owned(),
                },
            )
        } else {
            Ok(TagKey { client_prefix, vendor: None, value: rest.to_owned() })
        }
    }

    /// Parse one tag: key, and verbatim value after the first `=` if one
    /// occurs. Total: any text yields a tag.
    pub fn parse_tag(input: &str) -> (r: Result<Tag, ()>)
        ensures
            r matches Ok(t) && tag_decodes_to(input@, t),
    {
        let n = input.unicode_len();
        let i = find_char(input, '=');
        if i < n {
            let key = match Message::parse_key(input.substring_char(0, i)) {
                Ok(k) => k,
                Err(e) => {
                    return Err(e);
                },
            };
            Ok(Tag { key, value: Some(input.substring_char(i + 1, n).to_owned()) })
        } else {
            let key = match Message::parse_key(input) {
                Ok(k) => k,
                Err(e) => {
                    return Err(e);
                },
            };
            Ok(Tag { key, value: None })
        }
    }

    /// Parse a `;`-separated tag section. Typed as fallible to allow future
    /// stricter validation, but with this grammar it always succeeds.
    pub fn parse_tags(input: &str) -> (r: Result<Vec<Tag>, ()>)
        ensures
            r matches Ok(tags) && tags_decode_to(input@, tags@),
    {
        let mut tags: Vec<Tag> = Vec::new();
        let mut rest: &str = input;
        let ghost whole = input@;
        let ghost pieces = split_all(whole, ';');
        loop
            invariant_except_break
                tags@.len() <= pieces.len(),
                pieces == split_all(whole, ';'),
                forall|k: int|
                    0 <= k < tags@.len() ==> tag_decodes_to(pieces[k], #[trigger] tags@[k]),
                split_all(rest@, ';') == pieces.skip(tags@.len() as int),
            ensures
                tags_decode_to(whole, tags@),
            decreases rest@.len(),
        {
            let n = rest.unicode_len();
            let i = find_char(rest, ';');
            proof {
                lemma_first_index_of(rest@, ';');
                crate::text::lemma_split_all_len(rest@, ';');
            }
            if i == n {
                let tag = match Message::parse_tag(rest) {
                    Ok(t) => t,
                    Err(e) => {
                        return Err(e);
                    },
                };
                proof {
                    let k = tags@.len() as int;
                    assert(split_all(rest@, ';') == seq![rest@]);
                    assert(pieces.skip(k).len() == 1);
                    assert(pieces.skip(k)[0] == pieces[k]);
                    assert(pieces[k] == rest@);
                }
                tags.push(tag);
                break;
            } else {
                let piece = rest.substring_char(0, i);
                let next = rest.substring_char(i + 1, n);
                let tag = match Message::parse_tag(piece) {
                    Ok(t) => t,
                    Err(e) => {
                        return Err(e);
                    },
                };
                proof {
                    let k = tags@.len() as int;
                    assert(split_all(rest@, ';') == seq![rest@.take(i as int)] + split_all(
                        next@,
                        ';',
                    ));
                    assert(pieces.skip(k)[0] == pieces[k]);
                    assert(pieces[k] == piece@);
                    assert(pieces.skip(k).skip(1) =~= pieces.skip(k + 1));
                    assert((seq![piece@] + split_all(next@, ';')).skip(1) =~= split_all(
                        next@,
                        ';',
                    ));
                    assert(split_all(next@, ';') == pieces.skip(k + 1));
                }
                tags.push(tag);
                rest = next;
            }
        }
        Ok(tags)
    }

    /// Parse a source. Total: any text becomes a source, a bare name when
    /// no `!` or `@` delimiter occurs.
    pub fn parse_source(input: &str) -> (r: Result<Source, ()>)
        ensures
            r matches Ok(s) && source_decodes_to(input@, s),
    {
        let n = input.unicode_len();
        let a = find_char(input, '@');
        let left: &str;
        let host: Option<String>;
        if a < n {
            left = input.substring_char(0, a);
            host = Some(input.substring_char(a + 1, n).to_owned());
        } else {
            left = input;
            host = None;
        }
        let m = left.unicode_len();
        let b = find_char(left, '!');
        if b < m {
            Ok(
                Source {
                    name: left.substring_char(0, b).to_owned(),
                    user: Some(left.substring_char(b + 1, m).to_owned()),
                    host,
                },
            )
        } else {
            Ok(Source { name: left.to_owned(), user: None, host })
        }
    }

    /// Decode one frame into a message. Fails exactly when the bytes are
    /// not valid UTF-8 or a tag or source section is not followed by a
    /// space; an unrecognised verb or code still decodes, into the
    /// catch-all payload, so callers can inspect it.
    pub fn from_bytes(src: &[u8]) -> (r: Option<Message>)
        ensures
            r is Some <==> valid_utf8(src@) && line_shape_ok(decode_utf8(src@)),
            r matches Some(m) ==> message_decodes_to(decode_utf8(src@), m),
    {
        let s: &str = match utf8_to_str(src) {
            Some(s) => s,
            None => {
                return None;
            },
        };
        proof {
            encode_utf8_decode_utf8(s@);
        }
        let ghost line = s@;
        let mut rest: &str = s;
        let mut tags: Option<Vec<Tag>> = None;
        let n = rest.unicode_len();
        if n > 0 && rest.get_char(0) == '@' {
            let i = find_char(rest, ' ');
            proof {
                lemma_first_index_of(rest@, ' ');
            }
            if i == n {
                return None;
            }
            let parsed = match Message::parse_tags(rest.substring_char(1, i)) {
                Ok(t) => t,
                Err(_) => {
                    return None;
                },
            };
            tags = Some(parsed);
            rest = rest.substring_char(i + 1, n);
        }
        proof {
            assert(rest@ == after_tags(line));
        }
        let ghost rest1 = rest@;
        let m1 = rest.unicode_len();
        let mut source: Option<Source> = None;
        if m1 > 0 && rest.get_char(0) == ':' {
            let i = find_char(rest, ' ');
            proof {
                lemma_first_index_of(rest@, ' ');
            }
            if i == m1 {
                return None;
            }
            let parsed = match Message::parse_source(rest.substring_char(1, i)) {
                Ok(s) => s,
                Err(_) => {
                    return None;
                },
            };
            source = Some(parsed);
            rest = rest.substring_char(i + 1, m1);
        }
        proof {
            assert(line_shape_ok(line));
            assert(rest@ == after_source(rest1));
        }
        let ghost cmdtext = rest@;
        let m2 = rest.unicode_len();
        let i = find_char(rest, ' ');
        let command: Command;
        if i == m2 {
            let none_params: Vec<String> = Vec::new();
            proof {
                assert(none_params.deep_view() =~= params_of(cmdtext));
            }
            command = Command::new(rest, none_params);
        } else {
            let verb = rest.substring_char(0, i);
            let tail = rest.substring_char(i + 1, m2);
            let tn = tail.unicode_len();
            let j = find_marker(tail, ' ', ':');
            let params: Vec<String>;
            if j < tn {
                proof {
                    lemma_first_marker_index(tail@, ' ', ':');
                }
                let mut ps = split_on_char(tail.substring_char(0, j), ' ');
                let ghost prev = ps.deep_view();
                ps.push(tail.substring_char(j + 2, tn).to_owned());
                proof {
                    assert(ps.deep_view() =~= prev.push(tail@.skip(j + 2)));
                }
                params = ps;
            } else {
                params = split_on_char(tail, ' ');
            }
            proof {
                assert(params.deep_view() == params_of(cmdtext));
            }
            command = Command::new(verb, params);
        }
        Some(Message { tags, source, command })
    }
}

} // verus!
