//! The encoder: a stateful translator from visitor-style protocol calls to
//! JSON text, holding the formatting state, the output text, and the
//! map-key flag.

use vstd::prelude::*;
use vstd::string::*;

use crate::fmt_state::{EncodingFormat, cur_of, step_of, is_pretty, entered, left_composite};
use crate::text::{dec_digits, dec_int, quoted, spaces_seq, no_whitespace, push_char,
    push_u64_digits, push_i64_digits, push_escaped, push_escaped_one, push_spaces};

verus! {

/// The error an encoding operation can report: a protocol call tried to emit
/// a value that has no JSON string form while in map-key position.
#[derive(Clone, Copy, PartialEq, Eq, Structural, Debug)]
pub enum EncodeError {
    BadMapKey,
}

/// The result of one encoding operation.
pub type EncodeResult<T> = Result<T, EncodeError>;

/// The text before one sequence element (also before one map key): a comma
/// after the first element, and a newline plus indentation in pretty mode.
pub open spec fn seq_elt_prefix(f: EncodingFormat, idx: int) -> Seq<char> {
    (if idx != 0 {
        ","@
    } else {
        Seq::<char>::empty()
    }) + match f {
        EncodingFormat::Compact => Seq::<char>::empty(),
        EncodingFormat::Pretty { curr_indent, .. } => "\n"@ + spaces_seq(curr_indent as nat),
    }
}

/// The text that closes a non-empty composite opened under format `f`:
/// nothing in compact mode, a newline plus indentation one level up in
/// pretty mode. The closing delimiter itself follows it.
pub open spec fn close_prefix(f: EncodingFormat) -> Seq<char> {
    match f {
        EncodingFormat::Compact => Seq::<char>::empty(),
        EncodingFormat::Pretty { curr_indent, indent } => "\n"@ + spaces_seq(
            (curr_indent - indent) as nat,
        ),
    }
}

/// The text before one struct field's value: the separator, the enquoted
/// field name, and the colon (colon-space in pretty mode).
pub open spec fn struct_field_prefix(f: EncodingFormat, idx: int, name: Seq<char>) -> Seq<char> {
    (if idx != 0 {
        ","@
    } else {
        Seq::<char>::empty()
    }) + (match f {
        EncodingFormat::Compact => Seq::<char>::empty(),
        EncodingFormat::Pretty { curr_indent, .. } => "\n"@ + spaces_seq(curr_indent as nat),
    }) + quoted(name) + (if is_pretty(f) {
        ": "@
    } else {
        ":"@
    })
}

/// The text between a map key and its value: a colon, with a trailing space
/// in pretty mode.
pub open spec fn map_val_prefix(f: EncodingFormat) -> Seq<char> {
    if is_pretty(f) {
        ": "@
    } else {
        ":"@
    }
}

/// The text before one enum-variant field: a comma (plus a newline in pretty
/// mode) after the first field, and indentation in pretty mode.
pub open spec fn variant_arg_prefix(f: EncodingFormat, idx: int) -> Seq<char> {
    (if idx != 0 {
        ","@ + (if is_pretty(f) {
            "\n"@
        } else {
            Seq::<char>::empty()
        })
    } else {
        Seq::<char>::empty()
    }) + match f {
        EncodingFormat::Compact => Seq::<char>::empty(),
        EncodingFormat::Pretty { curr_indent, .. } => spaces_seq(curr_indent as nat),
    }
}

/// The text that opens an enum variant with fields under format `f`: the
/// object with its `variant` key, the variant's name, and the opening of the
/// `fields` array.
pub open spec fn variant_open(f: EncodingFormat, name: Seq<char>) -> Seq<char> {
    match f {
        EncodingFormat::Compact => "{\"variant\":"@ + quoted(name) + ",\"fields\":["@,
        EncodingFormat::Pretty { curr_indent, indent } => "{\n"@ + spaces_seq(
            (curr_indent + indent) as nat,
        ) + "\"variant\": "@ + quoted(name) + ",\n"@ + spaces_seq((curr_indent + indent) as nat)
            + "\"fields\": [\n"@,
    }
}

/// The text that closes an enum variant with fields, `f` being the format
/// state at the close call (still two levels deep): the closing of the
/// `fields` array and of the object.
pub open spec fn variant_close(f: EncodingFormat) -> Seq<char> {
    match f {
        EncodingFormat::Compact => "]}"@,
        EncodingFormat::Pretty { curr_indent, indent } => "\n"@ + spaces_seq(
            (curr_indent - indent) as nat,
        ) + "]\n"@ + spaces_seq((curr_indent - 2 * indent) as nat) + "}"@,
    }
}

/// Law: in compact mode the structural text the encoder inserts holds no
/// whitespace at all — an element separator is a lone comma, a key-value
/// separator a lone colon, and a closing a bare delimiter — so compact
/// output's only whitespace is what the encoded strings themselves contain.
/// (In pretty mode the inserted whitespace is exactly a newline plus the
/// current indentation, which `lemma_indent_after_linear` pins to nesting
/// depth times the indent step.)
pub proof fn lemma_compact_structure_no_whitespace(idx: int)
    ensures
        no_whitespace(seq_elt_prefix(EncodingFormat::Compact, idx)),
        no_whitespace(close_prefix(EncodingFormat::Compact)),
        no_whitespace(map_val_prefix(EncodingFormat::Compact)),
        no_whitespace(variant_arg_prefix(EncodingFormat::Compact, idx)),
{
    reveal_strlit(",");
    reveal_strlit(":");
    assert(seq_elt_prefix(EncodingFormat::Compact, idx) =~= if idx != 0 {
        seq![',']
    } else {
        Seq::<char>::empty()
    });
    assert(map_val_prefix(EncodingFormat::Compact) =~= seq![':']);
    assert(variant_arg_prefix(EncodingFormat::Compact, idx) =~= if idx != 0 {
        seq![',']
    } else {
        Seq::<char>::empty()
    });
}

/// A streaming JSON encoder. Protocol calls append text to `out`; the
/// formatting state decides the structural whitespace, and the map-key flag
/// restricts which calls are legal while an object key is being emitted.
pub struct ObjectEncoder {
    out: String,
    format: EncodingFormat,
    is_emitting_map_key: bool,
}

impl ObjectEncoder {
    /// The text emitted so far.
    pub closed spec fn spec_out(&self) -> Seq<char> {
        self.out@
    }

    /// The current formatting state.
    pub closed spec fn spec_format(&self) -> EncodingFormat {
        self.format
    }

    /// Whether the encoder is currently emitting a map key.
    pub closed spec fn spec_map_key(&self) -> bool {
        self.is_emitting_map_key
    }

    /// A fresh encoder producing compact output.
    pub fn new() -> (e: ObjectEncoder)
        ensures
            e.spec_out() == Seq::<char>::empty(),
            e.spec_format() == EncodingFormat::Compact,
            !e.spec_map_key(),
    {
        ObjectEncoder { out: String::new(), format: EncodingFormat::Compact, is_emitting_map_key: false }
    }

    /// A fresh encoder producing indented output, `indent` spaces per
    /// nesting level.
    pub fn new_pretty(indent: u32) -> (e: ObjectEncoder)
        ensures
            e.spec_out() == Seq::<char>::empty(),
            e.spec_format() == (EncodingFormat::Pretty { curr_indent: 0, indent }),
            !e.spec_map_key(),
    {
        ObjectEncoder {
            out: String::new(),
            format: EncodingFormat::Pretty { curr_indent: 0, indent },
            is_emitting_map_key: false,
        }
    }

    /// The text emitted so far.
    pub fn output(&self) -> (r: &str)
        ensures
            r@ == self.spec_out(),
    {
        self.out.as_str()
    }

    /// Hands the emitted text over, consuming the encoder.
    pub fn into_output(self) -> (r: String)
        ensures
            r@ == self.spec_out(),
    {
        self.out
    }

    /// The current indentation in spaces (0 in compact mode).
    pub fn current_indent(&self) -> (n: u32)
        ensures
            n as int == cur_of(self.spec_format()),
    {
        match self.format {
            EncodingFormat::Compact => 0,
            EncodingFormat::Pretty { curr_indent, .. } => curr_indent,
        }
    }

    /// The number of spaces added per nesting level (0 in compact mode).
    pub fn indent_step(&self) -> (n: u32)
        ensures
            n as int == step_of(self.spec_format()),
    {
        match self.format {
            EncodingFormat::Compact => 0,
            EncodingFormat::Pretty { indent, .. } => indent,
        }
    }

    /// Emits the JSON `null` token. Fails in map-key position: `null` has no
    /// JSON string form.
    pub fn emit_nil(&mut self) -> (r: EncodeResult<()>)
        ensures
            old(self).spec_map_key() ==> r == Err::<(), EncodeError>(EncodeError::BadMapKey)
                && *final(self) == *old(self),
            !old(self).spec_map_key() ==> r == Ok::<(), EncodeError>(())
                && final(self).spec_out() == old(self).spec_out() + "null"@
                && final(self).spec_format() == old(self).spec_format()
                && !final(self).spec_map_key(),
    {
        if self.is_emitting_map_key {
            return Err(EncodeError::BadMapKey);
        }
        self.out.append("null");
        Ok(())
    }

    /// Emits `true` or `false`. Fails in map-key position: booleans have no
    /// JSON string form.
    pub fn emit_bool(&mut self, v: bool) -> (r: EncodeResult<()>)
        ensures
            old(self).spec_map_key() ==> r == Err::<(), EncodeError>(EncodeError::BadMapKey)
                && *final(self) == *old(self),
            !old(self).spec_map_key() ==> r == Ok::<(), EncodeError>(())
                && final(self).spec_out() == old(self).spec_out() + (if v { "true"@ } else { "false"@ })
                && final(self).spec_format() == old(self).spec_format()
                && !final(self).spec_map_key(),
    {
        if self.is_emitting_map_key {
            return Err(EncodeError::BadMapKey);
        }
        if v {
            self.out.append("true");
        } else {
            self.out.append("false");
        }
        Ok(())
    }

    /// Emits the decimal token of `v`: bare as a value, wrapped in double
    /// quotes as a map key (object keys must be JSON strings).
    pub fn emit_u64(&mut self, v: u64) -> (r: EncodeResult<()>)
        ensures
            r == Ok::<(), EncodeError>(()),
            final(self).spec_format() == old(self).spec_format(),
            final(self).spec_map_key() == old(self).spec_map_key(),
            !old(self).spec_map_key() ==> final(self).spec_out() == old(self).spec_out()
                + dec_digits(v as nat),
            old(self).spec_map_key() ==> final(self).spec_out() == old(self).spec_out()
                + seq!['"'] + dec_digits(v as nat) + seq!['"'],
    {
        let ghost pre = self.out@;
        if self.is_emitting_map_key {
            push_char(&mut self.out, '"');
            push_u64_digits(&mut self.out, v);
            push_char(&mut self.out, '"');
            proof {
                assert(self.out@ =~= pre + seq!['"'] + dec_digits(v as nat) + seq!['"']);
            }
        } else {
            push_u64_digits(&mut self.out, v);
        }
        Ok(())
    }

    /// Emits the decimal token of `v`, with a minus sign when negative: bare
    /// as a value, wrapped in double quotes as a map key.
    pub fn emit_i64(&mut self, v: i64) -> (r: EncodeResult<()>)
        ensures
            r == Ok::<(), EncodeError>(()),
            final(self).spec_format() == old(self).spec_format(),
            final(self).spec_map_key() == old(self).spec_map_key(),
            !old(self).spec_map_key() ==> final(self).spec_out() == old(self).spec_out()
                + dec_int(v as int),
            old(self).spec_map_key() ==> final(self).spec_out() == old(self).spec_out()
                + seq!['"'] + dec_int(v as int) + seq!['"'],
    {
        let ghost pre = self.out@;
        if self.is_emitting_map_key {
            push_char(&mut self.out, '"');
            push_i64_digits(&mut self.out, v);
            push_char(&mut self.out, '"');
            proof {
                assert(self.out@ =~= pre + seq!['"'] + dec_int(v as int) + seq!['"']);
            }
        } else {
            push_i64_digits(&mut self.out, v);
        }
        Ok(())
    }

    /// Emits the decimal token of a `usize` value.
    pub fn emit_usize(&mut self, v: usize) -> (r: EncodeResult<()>)
        ensures
            r == Ok::<(), EncodeError>(()),
            final(self).spec_format() == old(self).spec_format(),
            final(self).spec_map_key() == old(self).spec_map_key(),
            !old(self).spec_map_key() ==> final(self).spec_out() == old(self).spec_out()
                + dec_digits(v as nat),
            old(self).spec_map_key() ==> final(self).spec_out() == old(self).spec_out()
                + seq!['"'] + dec_digits(v as nat) + seq!['"'],
    {
        self.emit_u64(v as u64)
    }

    /// Emits the decimal token of a `u32` value.
    pub fn emit_u32(&mut self, v: u32) -> (r: EncodeResult<()>)
        ensures
            r == Ok::<(), EncodeError>(()),
            final(self).spec_format() == old(self).spec_format(),
            final(self).spec_map_key() == old(self).spec_map_key(),
            !old(self).spec_map_key() ==> final(self).spec_out() == old(self).spec_out()
                + dec_digits(v as nat),
            old(self).spec_map_key() ==> final(self).spec_out() == old(self).spec_out()
                + seq!['"'] + dec_digits(v as nat) + seq!['"'],
    {
        self.emit_u64(v as u64)
    }

    /// Emits the decimal token of a `u16` value.
    pub fn emit_u16(&mut self, v: u16) -> (r: EncodeResult<()>)
        ensures
            r == Ok::<(), EncodeError>(()),
            final(self).spec_format() == old(self).spec_format(),
            final(self).spec_map_key() == old(self).spec_map_key(),
            !old(self).spec_map_key() ==> final(self).spec_out() == old(self).spec_out()
                + dec_digits(v as nat),
            old(self).spec_map_key() ==> final(self).spec_out() == old(self).spec_out()
                + seq!['"'] + dec_digits(v as nat) + seq!['"'],
    {
        self.emit_u64(v as u64)
    }

    /// Emits the decimal token of a `u8` value.
    pub fn emit_u8(&mut self, v: u8) -> (r: EncodeResult<()>)
        ensures
            r == Ok::<(), EncodeError>(()),
            final(self).spec_format() == old(self).spec_format(),
            final(self).spec_map_key() == old(self).spec_map_key(),
            !old(self).spec_map_key() ==> final(self).spec_out() == old(self).spec_out()
                + dec_digits(v as nat),
            old(self).spec_map_key() ==> final(self).spec_out() == old(self).spec_out()
                + seq!['"'] + dec_digits(v as nat) + seq!['"'],
    {
        self.emit_u64(v as u64)
    }

    /// Emits the decimal token of an `isize` value.
    pub fn emit_isize(&mut self, v: isize) -> (r: EncodeResult<()>)
        ensures
            r == Ok::<(), EncodeError>(()),
            final(self).spec_format() == old(self).spec_format(),
            final(self).spec_map_key() == old(self).spec_map_key(),
            !old(self).spec_map_key() ==> final(self).spec_out() == old(self).spec_out()
                + dec_int(v as int),
            old(self).spec_map_key() ==> final(self).spec_out() == old(self).spec_out()
                + seq!['"'] + dec_int(v as int) + seq!['"'],
    {
        self.emit_i64(v as i64)
    }

    /// Emits the decimal token of an `i32` value.
    pub fn emit_i32(&mut self, v: i32) -> (r: EncodeResult<()>)
        ensures
            r == Ok::<(), EncodeError>(()),
            final(self).spec_format() == old(self).spec_format(),
            final(self).spec_map_key() == old(self).spec_map_key(),
            !old(self).spec_map_key() ==> final(self).spec_out() == old(self).spec_out()
                + dec_int(v as int),
            old(self).spec_map_key() ==> final(self).spec_out() == old(self).spec_out()
                + seq!['"'] + dec_int(v as int) + seq!['"'],
    {
        self.emit_i64(v as i64)
    }

    /// Emits the decimal token of an `i16` value.
    pub fn emit_i16(&mut self, v: i16) -> (r: EncodeResult<()>)
        ensures
            r == Ok::<(), EncodeError>(()),
            final(self).spec_format() == old(self).spec_format(),
            final(self).spec_map_key() == old(self).spec_map_key(),
            !old(self).spec_map_key() ==> final(self).spec_out() == old(self).spec_out()
                + dec_int(v as int),
            old(self).spec_map_key() ==> final(self).spec_out() == old(self).spec_out()
                + seq!['"'] + dec_int(v as int) + seq!['"'],
    {
        self.emit_i64(v as i64)
    }

    /// Emits the decimal token of an `i8` value.
    pub fn emit_i8(&mut self, v: i8) -> (r: EncodeResult<()>)
        ensures
            r == Ok::<(), EncodeError>(()),
            final(self).spec_format() == old(self).spec_format(),
            final(self).spec_map_key() == old(self).spec_map_key(),
            !old(self).spec_map_key() ==> final(self).spec_out() == old(self).spec_out()
                + dec_int(v as int),
            old(self).spec_map_key() ==> final(self).spec_out() == old(self).spec_out()
                + seq!['"'] + dec_int(v as int) + seq!['"'],
    {
        self.emit_i64(v as i64)
    }

    /// Emits a ready-made numeric token (for number kinds the library does
    /// not format itself, the caller formats the value and passes the token;
    /// a non-finite value's token is `null`): bare as a value, wrapped in
    /// double quotes as a map key.
    pub fn emit_number_token(&mut self, v: &str) -> (r: EncodeResult<()>)
        ensures
            r == Ok::<(), EncodeError>(()),
            final(self).spec_format() == old(self).spec_format(),
            final(self).spec_map_key() == old(self).spec_map_key(),
            !old(self).spec_map_key() ==> final(self).spec_out() == old(self).spec_out() + v@,
            old(self).spec_map_key() ==> final(self).spec_out() == old(self).spec_out()
                + seq!['"'] + v@ + seq!['"'],
    {
        let ghost pre = self.out@;
        if self.is_emitting_map_key {
            push_char(&mut self.out, '"');
            self.out.append(v);
            push_char(&mut self.out, '"');
            proof {
                assert(self.out@ =~= pre + seq!['"'] + v@ + seq!['"']);
            }
        } else {
            self.out.append(v);
        }
        Ok(())
    }

    /// Emits the JSON string literal for one character, escaped the same way
    /// a one-character string would be. A string literal is a valid map key,
    /// so this never fails.
    pub fn emit_char(&mut self, v: char) -> (r: EncodeResult<()>)
        ensures
            r == Ok::<(), EncodeError>(()),
            final(self).spec_out() == old(self).spec_out() + quoted(seq![v]),
            final(self).spec_format() == old(self).spec_format(),
            final(self).spec_map_key() == old(self).spec_map_key(),
    {
        push_escaped_one(&mut self.out, v);
        Ok(())
    }

    /// Emits the JSON string literal for `v`, with control characters, the
    /// double quote and the backslash escaped. A string literal is a valid
    /// map key, so this never fails.
    pub fn emit_str(&mut self, v: &str) -> (r: EncodeResult<()>)
        ensures
            r == Ok::<(), EncodeError>(()),
            final(self).spec_out() == old(self).spec_out() + quoted(v@),
            final(self).spec_format() == old(self).spec_format(),
            final(self).spec_map_key() == old(self).spec_map_key(),
    {
        push_escaped(&mut self.out, v);
        Ok(())
    }

    /// Opens a sequence of `len` elements: `[]` outright when it is empty,
    /// else `[` and one more level of indentation. Fails in map-key
    /// position.
    pub fn emit_seq_begin(&mut self, len: usize) -> (r: EncodeResult<()>)
        requires
            cur_of(old(self).spec_format()) + step_of(old(self).spec_format()) <= u32::MAX,
        ensures
            old(self).spec_map_key() ==> r == Err::<(), EncodeError>(EncodeError::BadMapKey)
                && *final(self) == *old(self),
            !old(self).spec_map_key() ==> r == Ok::<(), EncodeError>(()) && !final(self).spec_map_key(),
            !old(self).spec_map_key() && len == 0 ==> final(self).spec_out() == old(self).spec_out()
                + "[]"@ && final(self).spec_format() == old(self).spec_format(),
            !old(self).spec_map_key() && len > 0 ==> final(self).spec_out() == old(self).spec_out()
                + "["@ && final(self).spec_format() == entered(old(self).spec_format()),
    {
        if self.is_emitting_map_key {
            return Err(EncodeError::BadMapKey);
        }
        if len == 0 {
            self.out.append("[]");
        } else {
            self.out.append("[");
            if let EncodingFormat::Pretty { curr_indent, indent } = self.format {
                self.format = EncodingFormat::Pretty { curr_indent: curr_indent + indent, indent };
            }
        }
        Ok(())
    }

    /// Emits the separator and indentation before the sequence element at
    /// `idx`. Fails in map-key position.
    pub fn emit_seq_elt_begin(&mut self, idx: usize) -> (r: EncodeResult<()>)
        ensures
            old(self).spec_map_key() ==> r == Err::<(), EncodeError>(EncodeError::BadMapKey)
                && *final(self) == *old(self),
            !old(self).spec_map_key() ==> r == Ok::<(), EncodeError>(())
                && final(self).spec_out() == old(self).spec_out()
                    + seq_elt_prefix(old(self).spec_format(), idx as int)
                && final(self).spec_format() == old(self).spec_format()
                && !final(self).spec_map_key(),
    {
        if self.is_emitting_map_key {
            return Err(EncodeError::BadMapKey);
        }
        let ghost pre = self.out@;
        let ghost f0 = self.format;
        if idx != 0 {
            self.out.append(",");
        }
        if let EncodingFormat::Pretty { curr_indent, .. } = self.format {
            self.out.append("\n");
            push_spaces(&mut self.out, curr_indent);
        }
        proof {
            assert(self.out@ =~= pre + seq_elt_prefix(f0, idx as int));
        }
        Ok(())
    }

    /// Closes a sequence of `len` elements: nothing more when it was empty,
    /// else one level of indentation back and `]` on its own line in pretty
    /// mode.
    pub fn emit_seq_end(&mut self, len: usize) -> (r: EncodeResult<()>)
        requires
            len > 0 ==> step_of(old(self).spec_format()) <= cur_of(old(self).spec_format()),
        ensures
            r == Ok::<(), EncodeError>(()),
            len == 0 ==> *final(self) == *old(self),
            len > 0 ==> final(self).spec_out() == old(self).spec_out()
                + close_prefix(old(self).spec_format()) + "]"@
                && final(self).spec_format() == left_composite(old(self).spec_format())
                && final(self).spec_map_key() == old(self).spec_map_key(),
    {
        if len != 0 {
            let ghost pre = self.out@;
            let ghost f0 = self.format;
            if let EncodingFormat::Pretty { curr_indent, indent } = self.format {
                let nc = curr_indent - indent;
                self.format = EncodingFormat::Pretty { curr_indent: nc, indent };
                self.out.append("\n");
                push_spaces(&mut self.out, nc);
            }
            self.out.append("]");
            proof {
                assert(self.out@ =~= pre + close_prefix(f0) + "]"@);
            }
        }
        Ok(())
    }

    /// Opens a struct of `len` fields: `{}` outright when it has none, else
    /// `{` and one more level of indentation. The struct's name is not part
    /// of the output. Fails in map-key position.
    pub fn emit_struct_begin(&mut self, _name: &str, len: usize) -> (r: EncodeResult<()>)
        requires
            cur_of(old(self).spec_format()) + step_of(old(self).spec_format()) <= u32::MAX,
        ensures
            old(self).spec_map_key() ==> r == Err::<(), EncodeError>(EncodeError::BadMapKey)
                && *final(self) == *old(self),
            !old(self).spec_map_key() ==> r == Ok::<(), EncodeError>(()) && !final(self).spec_map_key(),
            !old(self).spec_map_key() && len == 0 ==> final(self).spec_out() == old(self).spec_out()
                + "{}"@ && final(self).spec_format() == old(self).spec_format(),
            !old(self).spec_map_key() && len > 0 ==> final(self).spec_out() == old(self).spec_out()
                + "{"@ && final(self).spec_format() == entered(old(self).spec_format()),
    {
        if self.is_emitting_map_key {
            return Err(EncodeError::BadMapKey);
        }
        if len == 0 {
            self.out.append("{}");
        } else {
            self.out.append("{");
            if let EncodingFormat::Pretty { curr_indent, indent } = self.format {
                self.format = EncodingFormat::Pretty { curr_indent: curr_indent + indent, indent };
            }
        }
        Ok(())
    }

    /// Emits the separator, the enquoted field name and the colon before the
    /// struct field at `idx`. Fails in map-key position.
    pub fn emit_struct_field_begin(&mut self, name: &str, idx: usize) -> (r: EncodeResult<()>)
        ensures
            old(self).spec_map_key() ==> r == Err::<(), EncodeError>(EncodeError::BadMapKey)
                && *final(self) == *old(self),
            !old(self).spec_map_key() ==> r == Ok::<(), EncodeError>(())
                && final(self).spec_out() == old(self).spec_out()
                    + struct_field_prefix(old(self).spec_format(), idx as int, name@)
                && final(self).spec_format() == old(self).spec_format()
                && !final(self).spec_map_key(),
    {
        if self.is_emitting_map_key {
            return Err(EncodeError::BadMapKey);
        }
        let ghost pre = self.out@;
        let ghost f0 = self.format;
        if idx != 0 {
            self.out.append(",");
        }
        if let EncodingFormat::Pretty { curr_indent, .. } = self.format {
            self.out.append("\n");
            push_spaces(&mut self.out, curr_indent);
        }
        push_escaped(&mut self.out, name);
        match self.format {
            EncodingFormat::Pretty { .. } => self.out.append(": "),
            EncodingFormat::Compact => self.out.append(":"),
        }
        proof {
            assert(self.out@ =~= pre + struct_field_prefix(f0, idx as int, name@));
        }
        Ok(())
    }

    /// Closes a struct of `len` fields.
    pub fn emit_struct_end(&mut self, len: usize) -> (r: EncodeResult<()>)
        requires
            len > 0 ==> step_of(old(self).spec_format()) <= cur_of(old(self).spec_format()),
        ensures
            r == Ok::<(), EncodeError>(()),
            len == 0 ==> *final(self) == *old(self),
            len > 0 ==> final(self).spec_out() == old(self).spec_out()
                + close_prefix(old(self).spec_format()) + "}"@
                && final(self).spec_format() == left_composite(old(self).spec_format())
                && final(self).spec_map_key() == old(self).spec_map_key(),
    {
        if len != 0 {
            let ghost pre = self.out@;
            let ghost f0 = self.format;
            if let EncodingFormat::Pretty { curr_indent, indent } = self.format {
                let nc = curr_indent - indent;
                self.format = EncodingFormat::Pretty { curr_indent: nc, indent };
                self.out.append("\n");
                push_spaces(&mut self.out, nc);
            }
            self.out.append("}");
            proof {
                assert(self.out@ =~= pre + close_prefix(f0) + "}"@);
            }
        }
        Ok(())
    }

    /// Opens a map of `len` entries: `{}` outright when it is empty, else
    /// `{` and one more level of indentation. Fails in map-key position.
    pub fn emit_map_begin(&mut self, len: usize) -> (r: EncodeResult<()>)
        requires
            cur_of(old(self).spec_format()) + step_of(old(self).spec_format()) <= u32::MAX,
        ensures
            old(self).spec_map_key() ==> r == Err::<(), EncodeError>(EncodeError::BadMapKey)
                && *final(self) == *old(self),
            !old(self).spec_map_key() ==> r == Ok::<(), EncodeError>(()) && !final(self).spec_map_key(),
            !old(self).spec_map_key() && len == 0 ==> final(self).spec_out() == old(self).spec_out()
                + "{}"@ && final(self).spec_format() == old(self).spec_format(),
            !old(self).spec_map_key() && len > 0 ==> final(self).spec_out() == old(self).spec_out()
                + "{"@ && final(self).spec_format() == entered(old(self).spec_format()),
    {
        if self.is_emitting_map_key {
            return Err(EncodeError::BadMapKey);
        }
        if len == 0 {
            self.out.append("{}");
        } else {
            self.out.append("{");
            if let EncodingFormat::Pretty { curr_indent, indent } = self.format {
                self.format = EncodingFormat::Pretty { curr_indent: curr_indent + indent, indent };
            }
        }
        Ok(())
    }

    /// Emits the separator and indentation before the map key at `idx`, and
    /// raises the map-key flag: exactly one following emit call is evaluated
    /// as an object key. Fails if a key is already being emitted.
    pub fn emit_map_elt_key_begin(&mut self, idx: usize) -> (r: EncodeResult<()>)
        ensures
            old(self).spec_map_key() ==> r == Err::<(), EncodeError>(EncodeError::BadMapKey)
                && *final(self) == *old(self),
            !old(self).spec_map_key() ==> r == Ok::<(), EncodeError>(())
                && final(self).spec_out() == old(self).spec_out()
                    + seq_elt_prefix(old(self).spec_format(), idx as int)
                && final(self).spec_format() == old(self).spec_format()
                && final(self).spec_map_key(),
    {
        if self.is_emitting_map_key {
            return Err(EncodeError::BadMapKey);
        }
        let ghost pre = self.out@;
        let ghost f0 = self.format;
        if idx != 0 {
            self.out.append(",");
        }
        if let EncodingFormat::Pretty { curr_indent, .. } = self.format {
            self.out.append("\n");
            push_spaces(&mut self.out, curr_indent);
        }
        self.is_emitting_map_key = true;
        proof {
            assert(self.out@ =~= pre + seq_elt_prefix(f0, idx as int));
        }
        Ok(())
    }

    /// Lowers the map-key flag after the one emit call that produced the key,
    /// whether that call succeeded or failed, so a failed key cannot leak the
    /// flag into a sibling key.
    pub fn emit_map_elt_key_end(&mut self)
        ensures
            !final(self).spec_map_key(),
            final(self).spec_out() == old(self).spec_out(),
            final(self).spec_format() == old(self).spec_format(),
    {
        self.is_emitting_map_key = false;
    }

    /// Emits the colon between a map key and its value. Fails in map-key
    /// position.
    pub fn emit_map_elt_val_begin(&mut self) -> (r: EncodeResult<()>)
        ensures
            old(self).spec_map_key() ==> r == Err::<(), EncodeError>(EncodeError::BadMapKey)
                && *final(self) == *old(self),
            !old(self).spec_map_key() ==> r == Ok::<(), EncodeError>(())
                && final(self).spec_out() == old(self).spec_out()
                    + map_val_prefix(old(self).spec_format())
                && final(self).spec_format() == old(self).spec_format()
                && !final(self).spec_map_key(),
    {
        if self.is_emitting_map_key {
            return Err(EncodeError::BadMapKey);
        }
        match self.format {
            EncodingFormat::Pretty { .. } => self.out.append(": "),
            EncodingFormat::Compact => self.out.append(":"),
        }
        Ok(())
    }

    /// Closes a map of `len` entries.
    pub fn emit_map_end(&mut self, len: usize) -> (r: EncodeResult<()>)
        requires
            len > 0 ==> step_of(old(self).spec_format()) <= cur_of(old(self).spec_format()),
        ensures
            r == Ok::<(), EncodeError>(()),
            len == 0 ==> *final(self) == *old(self),
            len > 0 ==> final(self).spec_out() == old(self).spec_out()
                + close_prefix(old(self).spec_format()) + "}"@
                && final(self).spec_format() == left_composite(old(self).spec_format())
                && final(self).spec_map_key() == old(self).spec_map_key(),
    {
        if len != 0 {
            let ghost pre = self.out@;
            let ghost f0 = self.format;
            if let EncodingFormat::Pretty { curr_indent, indent } = self.format {
                let nc = curr_indent - indent;
                self.format = EncodingFormat::Pretty { curr_indent: nc, indent };
                self.out.append("\n");
                push_spaces(&mut self.out, nc);
            }
            self.out.append("}");
            proof {
                assert(self.out@ =~= pre + close_prefix(f0) + "}"@);
            }
        }
        Ok(())
    }

    /// Opens an enum variant named `name` with `cnt` fields. A variant with
    /// no fields is a bare JSON string (a valid map key); a variant with
    /// fields opens the two-key `{"variant": ..., "fields": [...]}` object,
    /// two indentation levels deep, and fails in map-key position.
    pub fn emit_enum_variant_begin(&mut self, name: &str, cnt: usize) -> (r: EncodeResult<()>)
        requires
            cnt > 0 ==> cur_of(old(self).spec_format()) + 2 * step_of(old(self).spec_format())
                <= u32::MAX,
        ensures
            cnt == 0 ==> r == Ok::<(), EncodeError>(())
                && final(self).spec_out() == old(self).spec_out() + quoted(name@)
                && final(self).spec_format() == old(self).spec_format()
                && final(self).spec_map_key() == old(self).spec_map_key(),
            cnt > 0 && old(self).spec_map_key() ==> r == Err::<(), EncodeError>(
                EncodeError::BadMapKey,
            ) && *final(self) == *old(self),
            cnt > 0 && !old(self).spec_map_key() ==> r == Ok::<(), EncodeError>(())
                && final(self).spec_out() == old(self).spec_out()
                    + variant_open(old(self).spec_format(), name@)
                && final(self).spec_format() == entered(entered(old(self).spec_format()))
                && !final(self).spec_map_key(),
    {
        if cnt == 0 {
            push_escaped(&mut self.out, name);
            return Ok(());
        }
        if self.is_emitting_map_key {
            return Err(EncodeError::BadMapKey);
        }
        let ghost pre = self.out@;
        let ghost f0 = self.format;
        match self.format {
            EncodingFormat::Compact => {
                self.out.append("{\"variant\":");
                push_escaped(&mut self.out, name);
                self.out.append(",\"fields\":[");
            },
            EncodingFormat::Pretty { curr_indent, indent } => {
                let ci1 = curr_indent + indent;
                self.out.append("{\n");
                push_spaces(&mut self.out, ci1);
                self.out.append("\"variant\": ");
                push_escaped(&mut self.out, name);
                self.out.append(",\n");
                push_spaces(&mut self.out, ci1);
                self.out.append("\"fields\": [\n");
                self.format = EncodingFormat::Pretty { curr_indent: ci1 + indent, indent };
            },
        }
        proof {
            assert(self.out@ =~= pre + variant_open(f0, name@));
        }
        Ok(())
    }

    /// Emits the separator and indentation before the enum-variant field at
    /// `idx`. Fails in map-key position.
    pub fn emit_enum_variant_arg_begin(&mut self, idx: usize) -> (r: EncodeResult<()>)
        ensures
            old(self).spec_map_key() ==> r == Err::<(), EncodeError>(EncodeError::BadMapKey)
                && *final(self) == *old(self),
            !old(self).spec_map_key() ==> r == Ok::<(), EncodeError>(())
                && final(self).spec_out() == old(self).spec_out()
                    + variant_arg_prefix(old(self).spec_format(), idx as int)
                && final(self).spec_format() == old(self).spec_format()
                && !final(self).spec_map_key(),
    {
        if self.is_emitting_map_key {
            return Err(EncodeError::BadMapKey);
        }
        let ghost pre = self.out@;
        let ghost f0 = self.format;
        if idx != 0 {
            self.out.append(",");
            if let EncodingFormat::Pretty { .. } = self.format {
                self.out.append("\n");
            }
        }
        if let EncodingFormat::Pretty { curr_indent, .. } = self.format {
            push_spaces(&mut self.out, curr_indent);
        }
        proof {
            assert(self.out@ =~= pre + variant_arg_prefix(f0, idx as int));
        }
        Ok(())
    }

    /// Closes an enum variant with `cnt` fields: nothing more for a bare
    /// variant name, else the closing of the `fields` array and of the
    /// object, stepping the indentation back two levels.
    pub fn emit_enum_variant_end(&mut self, cnt: usize) -> (r: EncodeResult<()>)
        requires
            cnt > 0 ==> 2 * step_of(old(self).spec_format()) <= cur_of(old(self).spec_format()),
        ensures
            r == Ok::<(), EncodeError>(()),
            cnt == 0 ==> *final(self) == *old(self),
            cnt > 0 ==> final(self).spec_out() == old(self).spec_out()
                + variant_close(old(self).spec_format())
                && final(self).spec_format() == left_composite(
                left_composite(old(self).spec_format()),
            )
                && final(self).spec_map_key() == old(self).spec_map_key(),
    {
        if cnt != 0 {
            let ghost pre = self.out@;
            let ghost f0 = self.format;
            match self.format {
                EncodingFormat::Compact => {
                    self.out.append("]}");
                },
                EncodingFormat::Pretty { curr_indent, indent } => {
                    let c1 = curr_indent - indent;
                    self.out.append("\n");
                    push_spaces(&mut self.out, c1);
                    let c2 = c1 - indent;
                    self.out.append("]\n");
                    push_spaces(&mut self.out, c2);
                    self.out.append("}");
                    self.format = EncodingFormat::Pretty { curr_indent: c2, indent };
                },
            }
            proof {
                assert(self.out@ =~= pre + variant_close(f0));
            }
        }
        Ok(())
    }

    /// Opens a struct-like enum variant. Encoded exactly like a tuple-like
    /// variant — field names are discarded — except that a fieldless one is
    /// still refused in map-key position.
    pub fn emit_enum_struct_variant_begin(&mut self, name: &str, cnt: usize) -> (r: EncodeResult<
        (),
    >)
        requires
            cnt > 0 ==> cur_of(old(self).spec_format()) + 2 * step_of(old(self).spec_format())
                <= u32::MAX,
        ensures
            old(self).spec_map_key() ==> r == Err::<(), EncodeError>(EncodeError::BadMapKey)
                && *final(self) == *old(self),
            !old(self).spec_map_key() && cnt == 0 ==> r == Ok::<(), EncodeError>(())
                && final(self).spec_out() == old(self).spec_out() + quoted(name@)
                && final(self).spec_format() == old(self).spec_format()
                && !final(self).spec_map_key(),
            !old(self).spec_map_key() && cnt > 0 ==> r == Ok::<(), EncodeError>(())
                && final(self).spec_out() == old(self).spec_out()
                    + variant_open(old(self).spec_format(), name@)
                && final(self).spec_format() == entered(entered(old(self).spec_format()))
                && !final(self).spec_map_key(),
    {
        if self.is_emitting_map_key {
            return Err(EncodeError::BadMapKey);
        }
        self.emit_enum_variant_begin(name, cnt)
    }

    /// Emits the separator before the struct-like variant field at `idx`;
    /// the field's name is discarded. Fails in map-key position.
    pub fn emit_enum_struct_variant_field_begin(&mut self, _name: &str, idx: usize) -> (r:
        EncodeResult<()>)
        ensures
            old(self).spec_map_key() ==> r == Err::<(), EncodeError>(EncodeError::BadMapKey)
                && *final(self) == *old(self),
            !old(self).spec_map_key() ==> r == Ok::<(), EncodeError>(())
                && final(self).spec_out() == old(self).spec_out()
                    + variant_arg_prefix(old(self).spec_format(), idx as int)
                && final(self).spec_format() == old(self).spec_format()
                && !final(self).spec_map_key(),
    {
        if self.is_emitting_map_key {
            return Err(EncodeError::BadMapKey);
        }
        self.emit_enum_variant_arg_begin(idx)
    }

    /// Opens a tuple: encoded exactly as a sequence of `len` elements.
    pub fn emit_tuple_begin(&mut self, len: usize) -> (r: EncodeResult<()>)
        requires
            cur_of(old(self).spec_format()) + step_of(old(self).spec_format()) <= u32::MAX,
        ensures
            old(self).spec_map_key() ==> r == Err::<(), EncodeError>(EncodeError::BadMapKey)
                && *final(self) == *old(self),
            !old(self).spec_map_key() ==> r == Ok::<(), EncodeError>(()) && !final(self).spec_map_key(),
            !old(self).spec_map_key() && len == 0 ==> final(self).spec_out() == old(self).spec_out()
                + "[]"@ && final(self).spec_format() == old(self).spec_format(),
            !old(self).spec_map_key() && len > 0 ==> final(self).spec_out() == old(self).spec_out()
                + "["@ && final(self).spec_format() == entered(old(self).spec_format()),
    {
        if self.is_emitting_map_key {
            return Err(EncodeError::BadMapKey);
        }
        self.emit_seq_begin(len)
    }

    /// Emits the separator before the tuple element at `idx`.
    pub fn emit_tuple_arg_begin(&mut self, idx: usize) -> (r: EncodeResult<()>)
        ensures
            old(self).spec_map_key() ==> r == Err::<(), EncodeError>(EncodeError::BadMapKey)
                && *final(self) == *old(self),
            !old(self).spec_map_key() ==> r == Ok::<(), EncodeError>(())
                && final(self).spec_out() == old(self).spec_out()
                    + seq_elt_prefix(old(self).spec_format(), idx as int)
                && final(self).spec_format() == old(self).spec_format()
                && !final(self).spec_map_key(),
    {
        if self.is_emitting_map_key {
            return Err(EncodeError::BadMapKey);
        }
        self.emit_seq_elt_begin(idx)
    }

    /// Opens a tuple struct: encoded exactly as a sequence, with no
    /// distinguishing syntax; the name is not part of the output.
    pub fn emit_tuple_struct_begin(&mut self, _name: &str, len: usize) -> (r: EncodeResult<()>)
        requires
            cur_of(old(self).spec_format()) + step_of(old(self).spec_format()) <= u32::MAX,
        ensures
            old(self).spec_map_key() ==> r == Err::<(), EncodeError>(EncodeError::BadMapKey)
                && *final(self) == *old(self),
            !old(self).spec_map_key() ==> r == Ok::<(), EncodeError>(()) && !final(self).spec_map_key(),
            !old(self).spec_map_key() && len == 0 ==> final(self).spec_out() == old(self).spec_out()
                + "[]"@ && final(self).spec_format() == old(self).spec_format(),
            !old(self).spec_map_key() && len > 0 ==> final(self).spec_out() == old(self).spec_out()
                + "["@ && final(self).spec_format() == entered(old(self).spec_format()),
    {
        if self.is_emitting_map_key {
            return Err(EncodeError::BadMapKey);
        }
        self.emit_seq_begin(len)
    }

    /// Emits the separator before the tuple-struct element at `idx`.
    pub fn emit_tuple_struct_arg_begin(&mut self, idx: usize) -> (r: EncodeResult<()>)
        ensures
            old(self).spec_map_key() ==> r == Err::<(), EncodeError>(EncodeError::BadMapKey)
                && *final(self) == *old(self),
            !old(self).spec_map_key() ==> r == Ok::<(), EncodeError>(())
                && final(self).spec_out() == old(self).spec_out()
                    + seq_elt_prefix(old(self).spec_format(), idx as int)
                && final(self).spec_format() == old(self).spec_format()
                && !final(self).spec_map_key(),
    {
        if self.is_emitting_map_key {
            return Err(EncodeError::BadMapKey);
        }
        self.emit_seq_elt_begin(idx)
    }

    /// Begins an optional value. Nothing is written: an absent value emits
    /// `null`, a present one delegates to the wrapped value with no extra
    /// syntax. Fails in map-key position.
    pub fn emit_option(&mut self) -> (r: EncodeResult<()>)
        ensures
            old(self).spec_map_key() ==> r == Err::<(), EncodeError>(EncodeError::BadMapKey),
            !old(self).spec_map_key() ==> r == Ok::<(), EncodeError>(()),
            *final(self) == *old(self),
    {
        if self.is_emitting_map_key {
            return Err(EncodeError::BadMapKey);
        }
        Ok(())
    }

    /// Emits an absent optional value as `null`. Fails in map-key position.
    pub fn emit_option_none(&mut self) -> (r: EncodeResult<()>)
        ensures
            old(self).spec_map_key() ==> r == Err::<(), EncodeError>(EncodeError::BadMapKey)
                && *final(self) == *old(self),
            !old(self).spec_map_key() ==> r == Ok::<(), EncodeError>(())
                && final(self).spec_out() == old(self).spec_out() + "null"@
                && final(self).spec_format() == old(self).spec_format()
                && !final(self).spec_map_key(),
    {
        if self.is_emitting_map_key {
            return Err(EncodeError::BadMapKey);
        }
        self.emit_nil()
    }

    /// Begins a present optional value; the wrapped value follows with no
    /// extra syntax. Fails in map-key position.
    pub fn emit_option_some(&mut self) -> (r: EncodeResult<()>)
        ensures
            old(self).spec_map_key() ==> r == Err::<(), EncodeError>(EncodeError::BadMapKey),
            !old(self).spec_map_key() ==> r == Ok::<(), EncodeError>(()),
            *final(self) == *old(self),
    {
        if self.is_emitting_map_key {
            return Err(EncodeError::BadMapKey);
        }
        Ok(())
    }
}

} // verus!

