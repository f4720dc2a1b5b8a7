//! Rendering a JSON tree to text, with the exact output pinned down by
//! spec functions.

use vstd::prelude::*;

use crate::json::json_fields_view;
use crate::json::json_seq_view;
use crate::json::lemma_json_fields_view;
use crate::json::lemma_json_seq_view;
use crate::json::Json;
use crate::json::JsonView;
use crate::text::int_dec_chars;
use crate::text::str_to_chars;

verus! {

/// The hexadecimal digit character for `d`.
pub open spec fn hex_digit_char(d: nat) -> char {
    if d == 0 {
        '0'
    } else if d == 1 {
        '1'
    } else if d == 2 {
        '2'
    } else if d == 3 {
        '3'
    } else if d == 4 {
        '4'
    } else if d == 5 {
        '5'
    } else if d == 6 {
        '6'
    } else if d == 7 {
        '7'
    } else if d == 8 {
        '8'
    } else if d == 9 {
        '9'
    } else if d == 10 {
        'a'
    } else if d == 11 {
        'b'
    } else if d == 12 {
        'c'
    } else if d == 13 {
        'd'
    } else if d == 14 {
        'e'
    } else {
        'f'
    }
}

/// The rendering of one character inside a JSON string: quotes and
/// backslashes are escaped, the common control characters get their short
/// escapes, the rest of the control range the `\u00XX` form.
pub open spec fn escape_char(c: char) -> Seq<char> {
    if c == '"' {
        seq!['\\', '"']
    } else if c == '\\' {
        seq!['\\', '\\']
    } else if c == '\n' {
        seq!['\\', 'n']
    } else if c == '\r' {
        seq!['\\', 'r']
    } else if c == '\t' {
        seq!['\\', 't']
    } else if (c as u32) < 0x20 {
        seq!['\\', 'u', '0', '0', hex_digit_char((c as u32 / 16) as nat), hex_digit_char(
            (c as u32 % 16) as nat,
        )]
    } else {
        seq![c]
    }
}

/// The rendering of a string body, character by character.
pub open spec fn escape_chars(s: Seq<char>) -> Seq<char>
    decreases s.len(),
{
    if s.len() == 0 {
        Seq::empty()
    } else {
        escape_chars(s.drop_last()) + escape_char(s.last())
    }
}

/// The text of a JSON value: minimal, with no whitespace.
pub open spec fn render_chars(j: JsonView) -> Seq<char>
    decreases j, 1int,
{
    match j {
        JsonView::Null => "null"@,
        JsonView::Bool(b) => if b {
            "true"@
        } else {
            "false"@
        },
        JsonView::Int(n) => int_dec_chars(n),
        JsonView::NumText(t) => t,
        JsonView::Str(s) => seq!['"'] + escape_chars(s) + seq!['"'],
        JsonView::Arr(items) => seq!['['] + render_items(items) + seq![']'],
        JsonView::Obj(fields) => seq!['{'] + render_fields(fields) + seq!['}'],
    }
}

/// The comma-separated renderings of array elements.
pub open spec fn render_items(items: Seq<JsonView>) -> Seq<char>
    decreases items, 0int,
{
    if items.len() == 0 {
        Seq::empty()
    } else if items.len() == 1 {
        render_chars(items[0])
    } else {
        render_items(items.drop_last()) + seq![','] + render_chars(items.last())
    }
}

/// The comma-separated renderings of object members, each a quoted key,
/// a colon and the value.
pub open spec fn render_member(f: (Seq<char>, JsonView)) -> Seq<char>
    decreases f, 1int,
{
    seq!['"'] + escape_chars(f.0) + seq!['"', ':'] + render_chars(f.1)
}

/// The comma-separated renderings of an object's members.
pub open spec fn render_fields(fields: Seq<(Seq<char>, JsonView)>) -> Seq<char>
    decreases fields, 0int,
{
    if fields.len() == 0 {
        Seq::empty()
    } else if fields.len() == 1 {
        render_member(fields[0])
    } else {
        render_fields(fields.drop_last()) + seq![','] + render_member(fields.last())
    }
}

/// Appends the characters of a literal.
fn push_lit(out: &mut Vec<char>, s: &str)
    ensures
        final(out)@ == old(out)@ + s@,
{
    let cs = str_to_chars(s);
    let n = cs.len();
    let mut i: usize = 0;
    while i < n
        invariant
            n == cs@.len(),
            cs@ == s@,
            i <= n,
            out@ =~= old(out)@ + s@.take(i as int),
        decreases n - i,
    {
        out.push(cs[i]);
        i = i + 1;
    }
    proof {
        assert(out@ =~= old(out)@ + s@);
    }
}

/// Appends one escaped character.
fn push_escaped_char(out: &mut Vec<char>, c: char)
    ensures
        final(out)@ == old(out)@ + escape_char(c),
{
    if c == '"' {
        push_lit(out, "\\\"");
        proof {
            reveal_strlit("\\\"");
            assert(out@ =~= old(out)@ + escape_char(c));
        }
    } else if c == '\\' {
        push_lit(out, "\\\\");
        proof {
            reveal_strlit("\\\\");
            assert(out@ =~= old(out)@ + escape_char(c));
        }
    } else if c == '\n' {
        push_lit(out, "\\n");
        proof {
            reveal_strlit("\\n");
            assert(out@ =~= old(out)@ + escape_char(c));
        }
    } else if c == '\r' {
        push_lit(out, "\\r");
        proof {
            reveal_strlit("\\r");
            assert(out@ =~= old(out)@ + escape_char(c));
        }
    } else if c == '\t' {
        push_lit(out, "\\t");
        proof {
            reveal_strlit("\\t");
            assert(out@ =~= old(out)@ + escape_char(c));
        }
    } else if (c as u32) < 0x20 {
        push_lit(out, "\\u00");
        let v: u32 = c as u32;
        let hi: u32 = v / 16;
        let lo: u32 = v % 16;
        let hc: char = if hi == 0 {
            '0'
        } else {
            '1'
        };
        let lc: char = if lo == 0 {
            '0'
        } else if lo == 1 {
            '1'
        } else if lo == 2 {
            '2'
        } else if lo == 3 {
            '3'
        } else if lo == 4 {
            '4'
        } else if lo == 5 {
            '5'
        } else if lo == 6 {
            '6'
        } else if lo == 7 {
            '7'
        } else if lo == 8 {
            '8'
        } else if lo == 9 {
            '9'
        } else if lo == 10 {
            'a'
        } else if lo == 11 {
            'b'
        } else if lo == 12 {
            'c'
        } else if lo == 13 {
            'd'
        } else if lo == 14 {
            'e'
        } else {
            'f'
        };
        out.push(hc);
        out.push(lc);
        proof {
            reveal_strlit("\\u00");
            assert(out@ =~= old(out)@ + escape_char(c));
        }
    } else {
        out.push(c);
        proof {
            assert(out@ =~= old(out)@ + escape_char(c));
        }
    }
}

/// Appends the escaped body of a string.
fn push_escaped(out: &mut Vec<char>, s: &str)
    ensures
        final(out)@ == old(out)@ + escape_chars(s@),
{
    let cs = str_to_chars(s);
    let n = cs.len();
    let mut i: usize = 0;
    while i < n
        invariant
            n == cs@.len(),
            cs@ == s@,
            i <= n,
            out@ =~= old(out)@ + escape_chars(s@.take(i as int)),
        decreases n - i,
    {
        push_escaped_char(out, cs[i]);
        proof {
            assert(s@.take(i + 1 as int).drop_last() =~= s@.take(i as int));
            assert(s@.take(i + 1 as int).last() == s@[i as int]);
        }
        i = i + 1;
    }
    proof {
        assert(s@.take(n as int) =~= s@);
    }
}

/// Appends the rendering of a JSON value.
fn write_json(out: &mut Vec<char>, j: &Json)
    ensures
        final(out)@ == old(out)@ + render_chars(j@),
    decreases j,
{
    match j {
        Json::Null => {
            push_lit(out, "null");
            proof {
                reveal_strlit("null");
                assert(out@ =~= old(out)@ + render_chars(j@));
            }
        },
        Json::Bool(b) => {
            if *b {
                push_lit(out, "true");
            } else {
                push_lit(out, "false");
            }
            proof {
                reveal_strlit("true");
                reveal_strlit("false");
                assert(out@ =~= old(out)@ + render_chars(j@));
            }
        },
        Json::Int(n) => {
            let d = crate::text::i64_to_dec_string(*n);
            push_lit(out, d.as_str());
            proof {
                assert(out@ =~= old(out)@ + render_chars(j@));
            }
        },
        Json::NumText(t) => {
            push_lit(out, t.as_str());
            proof {
                assert(out@ =~= old(out)@ + render_chars(j@));
            }
        },
        Json::Str(s) => {
            out.push('"');
            push_escaped(out, s.as_str());
            out.push('"');
            proof {
                assert(out@ =~= old(out)@ + render_chars(j@));
            }
        },
        Json::Arr(items) => {
            let ghost start = out@;
            out.push('[');
            let n = items.len();
            let mut i: usize = 0;
            while i < n
                invariant
                    n == items@.len(),
                    i <= n,
                    *j == Json::Arr(*items),
                    out@ =~= start + seq!['['] + render_items(json_seq_view(items@).take(i as int)),
                decreases n - i,
            {
                proof {
                    let ghost selfv = *j;
                    assert(decreases_to!(selfv => selfv->Arr_0));
                    assert(decreases_to!(*items => items@));
                    assert(decreases_to!(items@ => items@[i as int]));
                }
                if i > 0 {
                    out.push(',');
                }
                write_json(out, &items[i]);
                proof {
                    lemma_json_seq_view(items@);
                    let jv = json_seq_view(items@);
                    assert(jv.take(i + 1 as int).drop_last() =~= jv.take(i as int));
                    assert(jv.take(i + 1 as int).last() == jv[i as int]);
                    assert(out@ =~= start + seq!['['] + render_items(jv.take(i + 1 as int)));
                }
                i = i + 1;
            }
            out.push(']');
            proof {
                lemma_json_seq_view(items@);
                assert(json_seq_view(items@).take(n as int) =~= json_seq_view(items@));
                assert(*j == Json::Arr(*items));
                assert(j@ == (Json::Arr(*items))@);
                assert(j@ == JsonView::Arr(json_seq_view(items@)));
                assert(render_chars(j@) == seq!['['] + render_items(json_seq_view(items@))
                    + seq![']']);
                assert(out@ =~= old(out)@ + render_chars(j@));
            }
        },
        Json::Obj(fields) => {
            let ghost start = out@;
            out.push('{');
            let n = fields.len();
            let mut i: usize = 0;
            while i < n
                invariant
                    n == fields@.len(),
                    i <= n,
                    *j == Json::Obj(*fields),
                    out@ =~= start + seq!['{'] + render_fields(
                        json_fields_view(fields@).take(i as int),
                    ),
                decreases n - i,
            {
                proof {
                    let ghost selfv = *j;
                    assert(decreases_to!(selfv => selfv->Obj_0));
                    assert(decreases_to!(*fields => fields@));
                    assert(decreases_to!(fields@ => fields@[i as int]));
                    assert(decreases_to!(fields@[i as int] => fields@[i as int].1));
                }
                if i > 0 {
                    out.push(',');
                }
                out.push('"');
                push_escaped(out, fields[i].0.as_str());
                out.push('"');
                out.push(':');
                write_json(out, &fields[i].1);
                proof {
                    lemma_json_fields_view(fields@);
                    let fv = json_fields_view(fields@);
                    assert(fv.take(i + 1 as int).drop_last() =~= fv.take(i as int));
                    assert(fv.take(i + 1 as int).last() == fv[i as int]);
                    assert(fv[i as int].0 == fields@[i as int].0@);
                    assert(fv[i as int].1 == fields@[i as int].1@);
                    assert(render_member(fv[i as int]) == seq!['"'] + escape_chars(
                        fv[i as int].0,
                    ) + seq!['"', ':'] + render_chars(fv[i as int].1));
                    assert(out@ =~= start + seq!['{'] + render_fields(fv.take(i + 1 as int)));
                }
                i = i + 1;
            }
            out.push('}');
            proof {
                lemma_json_fields_view(fields@);
                assert(json_fields_view(fields@).take(n as int) =~= json_fields_view(fields@));
                assert(*j == Json::Obj(*fields));
                assert(j@ == (Json::Obj(*fields))@);
                assert(j@ == JsonView::Obj(json_fields_view(fields@)));
                assert(render_chars(j@) == seq!['{'] + render_fields(json_fields_view(fields@))
                    + seq!['}']);
                assert(out@ =~= old(out)@ + render_chars(j@));
            }
        },
    }
}

impl Json {
    /// The text of this value: minimal JSON, no whitespace.
    pub fn render(&self) -> (r: String)
        ensures
            r@ == render_chars(self@),
    {
        let mut out: Vec<char> = Vec::new();
        write_json(&mut out, self);
        crate::text::chars_to_string(&out)
    }
}

} // verus!
