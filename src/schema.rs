//! Schemas: the ordered, named fields of a view, checked once when the schema is built.
use vstd::prelude::*;
use vstd::string::StringExecFns;

use crate::bfdesc::BfPos;
use crate::bits::{BitContainer, bits_of};
use crate::view::Bitfield;

verus! {

/// A field as declared: its name, lowest bit and highest bit.
pub type FieldDecl = (String, usize, usize);

/// Why a list of field declarations does not make a schema; `index` is the offending field.
#[derive(Clone, Copy, Debug, PartialEq, Eq, Structural)]
pub enum SchemaError {
    /// The lowest bit lies above the highest bit.
    EmptyRange { index: usize },
    /// The highest bit lies outside the container.
    OutOfWidth { index: usize },
    /// An earlier field has the same name.
    DuplicateName { index: usize },
}

/// Some field before position `i` has the same name as field `i`.
pub open spec fn name_taken_before(decls: Seq<FieldDecl>, i: int) -> bool {
    exists|j: int| 0 <= j < i && decls[j].0@ == decls[i].0@
}

/// What is wrong with declaration `i` in a container of `bits` bits, if anything.
pub open spec fn decl_error(decls: Seq<FieldDecl>, i: int, bits: u64) -> Option<SchemaError> {
    if decls[i].1 > decls[i].2 {
        Some(SchemaError::EmptyRange { index: i as usize })
    } else if decls[i].2 >= bits {
        Some(SchemaError::OutOfWidth { index: i as usize })
    } else if name_taken_before(decls, i) {
        Some(SchemaError::DuplicateName { index: i as usize })
    } else {
        None
    }
}

/// A field of a schema, by name, lowest bit and highest bit.
pub type FieldLayout = (Seq<char>, u64, u64);

/// The lower-case hexadecimal digit for `d < 16`.
pub open spec fn hex_char(d: nat) -> char {
    seq!['0', '1', '2', '3', '4', '5', '6', '7', '8', '9', 'a', 'b', 'c', 'd', 'e', 'f'][d as int]
}

/// `n` in lower-case hexadecimal, without leading zeros.
pub open spec fn hex_text(n: nat) -> Seq<char>
    decreases n,
{
    if n < 16 {
        seq![hex_char(n)]
    } else {
        hex_text(n / 16) + seq![hex_char(n % 16)]
    }
}

/// `name: value` for one field of the container value `x`.
pub open spec fn entry_text(f: FieldLayout, x: u64) -> Seq<char> {
    f.0 + seq![':', ' '] + hex_text(bits_of(x, f.1, f.2) as nat)
}

/// The entries of `fs` for the container value `x`, separated by `, `.
pub open spec fn entries_text(fs: Seq<FieldLayout>, x: u64) -> Seq<char>
    decreases fs.len(),
{
    if fs.len() == 0 {
        seq![]
    } else if fs.len() == 1 {
        entry_text(fs[0], x)
    } else {
        entries_text(fs.drop_last(), x) + seq![',', ' '] + entry_text(fs.last(), x)
    }
}

/// `Name { a: .., b: .. }`, or `Name` alone when there are no fields.
pub open spec fn debug_text(name: Seq<char>, fs: Seq<FieldLayout>, x: u64) -> Seq<char> {
    if fs.len() == 0 {
        name
    } else {
        name + seq![' ', '{', ' '] + entries_text(fs, x) + seq![' ', '}']
    }
}

/// The lower-case hexadecimal digit `d` as text.
fn hex_digit(d: u64) -> (r: &'static str)
    requires
        d < 16,
    ensures
        r@ == seq![hex_char(d as nat)],
{
    proof {
        reveal_strlit("0");
        reveal_strlit("1");
        reveal_strlit("2");
        reveal_strlit("3");
        reveal_strlit("4");
        reveal_strlit("5");
        reveal_strlit("6");
        reveal_strlit("7");
        reveal_strlit("8");
        reveal_strlit("9");
        reveal_strlit("a");
        reveal_strlit("b");
        reveal_strlit("c");
        reveal_strlit("d");
        reveal_strlit("e");
        reveal_strlit("f");
    }
    match d {
        0 => "0",
        1 => "1",
        2 => "2",
        3 => "3",
        4 => "4",
        5 => "5",
        6 => "6",
        7 => "7",
        8 => "8",
        9 => "9",
        10 => "a",
        11 => "b",
        12 => "c",
        13 => "d",
        14 => "e",
        _ => "f",
    }
}

/// Appends `n` in lower-case hexadecimal to `out`.
fn push_hex(out: &mut String, n: u64)
    ensures
        final(out)@ == old(out)@ + hex_text(n as nat),
    decreases n,
{
    if n >= 16 {
        push_hex(out, n / 16);
    }
    out.append(hex_digit(n % 16));
    proof {
        if n >= 16 {
            assert(hex_text(n as nat) == hex_text((n / 16) as nat) + seq![hex_char((n % 16) as nat)]);
        }
    }
}

/// One field of a schema: its name and its position.
pub struct SchemaField<T: BitContainer> {
    name: String,
    pos: BfPos<T>,
}

/// A named type over container `T` with an ordered list of uniquely named fields.
pub struct Schema<T: BitContainer> {
    name: String,
    fields: Vec<SchemaField<T>>,
}

impl<T: BitContainer> Schema<T> {
    /// The name of the type.
    pub closed spec fn title(self) -> Seq<char> {
        self.name@
    }

    /// The fields, in declaration order.
    pub closed spec fn layout(self) -> Seq<FieldLayout> {
        self.fields@.map_values(|f: SchemaField<T>| (f.name@, f.pos.low(), f.pos.high()))
    }

    /// Builds a schema from field declarations, rejecting the first one that is not valid.
    pub fn new(name: String, decls: Vec<FieldDecl>) -> (r: Result<Self, SchemaError>)
        ensures
            match r {
                Ok(s) => {
                    &&& forall|i: int|
                        0 <= i < decls@.len() ==> decl_error(decls@, i, T::bits()) is None
                    &&& s.title() == name@
                    &&& s.layout().len() == decls@.len()
                    &&& forall|i: int|
                        0 <= i < decls@.len() ==> #[trigger] s.layout()[i] == (
                            decls@[i].0@,
                            decls@[i].1 as u64,
                            decls@[i].2 as u64,
                        )
                },
                Err(e) => exists|i: int|
                    0 <= i < decls@.len() && (forall|j: int|
                        0 <= j < i ==> decl_error(decls@, j, T::bits()) is None) && decl_error(
                        decls@,
                        i,
                        T::bits(),
                    ) == Some(e),
            },
    {
        let bits = T::width();
        let mut fields: Vec<SchemaField<T>> = Vec::new();
        let mut i: usize = 0;
        while i < decls.len()
            invariant
                i <= decls@.len(),
                bits == T::bits(),
                fields@.len() == i,
                forall|k: int| 0 <= k < i ==> decl_error(decls@, k, T::bits()) is None,
                forall|k: int|
                    0 <= k < i ==> #[trigger] fields@[k].name@ == decls@[k].0@
                        && fields@[k].pos.low() == decls@[k].1 as u64 && fields@[k].pos.high()
                        == decls@[k].2 as u64,
            decreases decls@.len() - i,
        {
            let low = decls[i].1;
            let high = decls[i].2;
            if low > high {
                assert(decl_error(decls@, i as int, T::bits()) == Some(
                    SchemaError::EmptyRange { index: i },
                ));
                return Err(SchemaError::EmptyRange { index: i });
            }
            if high as u64 >= bits {
                assert(decl_error(decls@, i as int, T::bits()) == Some(
                    SchemaError::OutOfWidth { index: i },
                ));
                return Err(SchemaError::OutOfWidth { index: i });
            }
            let mut j: usize = 0;
            while j < i
                invariant
                    i < decls@.len(),
                    j <= i,
                    decls@[i as int].1 <= decls@[i as int].2 < T::bits(),
                    forall|k: int| 0 <= k < i ==> decl_error(decls@, k, T::bits()) is None,
                    forall|k: int| 0 <= k < j ==> decls@[k].0@ != decls@[i as int].0@,
                decreases i - j,
            {
                if decls[j].0 == decls[i].0 {
                    assert(name_taken_before(decls@, i as int)) by {
                        assert(decls@[j as int].0@ == decls@[i as int].0@);
                    }
                    assert(decl_error(decls@, i as int, T::bits()) == Some(
                        SchemaError::DuplicateName { index: i },
                    ));
                    return Err(SchemaError::DuplicateName { index: i });
                }
                j = j + 1;
            }
            assert(!name_taken_before(decls@, i as int));
            fields.push(SchemaField { name: decls[i].0.clone(), pos: BfPos::new((low, high)) });
            i = i + 1;
        }
        let s = Schema { name, fields };
        assert forall|k: int| 0 <= k < decls@.len() implies #[trigger] s.layout()[k] == (
            decls@[k].0@,
            decls@[k].1 as u64,
            decls@[k].2 as u64,
        ) by {
            assert(s.fields@[k].name@ == decls@[k].0@);
        }
        Ok(s)
    }

    /// Number of fields.
    pub fn len(&self) -> (r: usize)
        ensures
            r == self.layout().len(),
    {
        self.fields.len()
    }

    /// The position of field `i`.
    pub fn field(&self, i: usize) -> (r: &BfPos<T>)
        requires
            i < self.layout().len(),
        ensures
            r.low() == self.layout()[i as int].1,
            r.high() == self.layout()[i as int].2,
    {
        &self.fields[i].pos
    }

    /// The index of the field called `name`, if there is one.
    pub fn find(&self, name: &String) -> (r: Option<usize>)
        ensures
            match r {
                Some(i) => i < self.layout().len() && self.layout()[i as int].0 == name@ && forall|
                    j: int,
                | 0 <= j < i ==> self.layout()[j].0 != name@,
                None => forall|j: int| 0 <= j < self.layout().len() ==> self.layout()[j].0 != name@,
            },
    {
        let mut i: usize = 0;
        while i < self.fields.len()
            invariant
                i <= self.layout().len(),
                forall|j: int| 0 <= j < i ==> self.layout()[j].0 != name@,
            decreases self.layout().len() - i,
        {
            if self.fields[i].name == *name {
                return Some(i);
            }
            i = i + 1;
        }
        None
    }

    /// The view's value as `Name { field: value, .. }`, each field's value read afresh and
    /// written in lower-case hexadecimal, fields in declaration order.
    pub fn format_view(&self, view: &Bitfield<T>) -> (r: String)
        ensures
            r@ == debug_text(self.title(), self.layout(), view.val.wide()),
    {
        let ghost xw = view.val.wide();
        let ghost fs = self.layout();
        let mut out = self.name.clone();
        if self.fields.len() == 0 {
            return out;
        }
        proof {
            reveal_strlit(" { ");
            reveal_strlit(", ");
            reveal_strlit(": ");
            reveal_strlit(" }");
        }
        out.append(" { ");
        let mut i: usize = 0;
        while i < self.fields.len()
            invariant
                0 < fs.len(),
                fs == self.layout(),
                xw == view.val.wide(),
                i <= fs.len(),
                out@ == self.name@ + seq![' ', '{', ' '] + entries_text(fs.take(i as int), xw),
            decreases fs.len() - i,
        {
            let ghost before = out@;
            if i > 0 {
                out.append(", ");
            }
            out.append(self.fields[i].name.as_str());
            out.append(": ");
            let v = self.fields[i].pos.extract(view.val);
            push_hex(&mut out, v.to_wide());
            proof {
                reveal_strlit(", ");
                reveal_strlit(": ");
                let t = fs.take(i as int + 1);
                let f = self.fields@[i as int];
                assert(fs[i as int] == (f.name@, f.pos.low(), f.pos.high()));
                let e = entry_text(fs[i as int], xw);
                assert(e =~= f.name@ + seq![':', ' '] + hex_text(v.wide() as nat));
                assert(t.drop_last() =~= fs.take(i as int));
                assert(t.last() == fs[i as int]);
                if i == 0 {
                    assert(entries_text(t, xw) == e);
                    assert(out@ =~= before + e);
                } else {
                    assert(entries_text(t, xw) == entries_text(fs.take(i as int), xw) + seq![
                        ',',
                        ' ',
                    ] + e);
                    assert(out@ =~= before + seq![',', ' '] + e);
                }
                assert(out@ =~= self.name@ + seq![' ', '{', ' '] + entries_text(t, xw));
            }
            i = i + 1;
        }
        proof {
            reveal_strlit(" }");
        }
        out.append(" }");
        assert(fs.take(fs.len() as int) =~= fs);
        out
    }
}

} // verus!
