//! Extraction of the code section from an executable image.
use object::{Object, ObjectSection};
use vstd::prelude::*;

verus! {

/// What the `object` crate reads as the contents of the section called `name`
/// in the object file `file`; `None` where the file does not parse, has no
/// section of that name, or the section's data cannot be read.
pub uninterp spec fn section_contents(file: Seq<u8>, name: Seq<char>) -> Option<Seq<u8>>;

/// The name of the section that holds a program's code.
pub open spec fn text_name() -> Seq<char> {
    seq!['.', 't', 'e', 'x', 't']
}

/// Relies on `object::File::parse`, `Object::section_by_name` and
/// `ObjectSection::data`: the section's bytes are a function of the file's
/// bytes and the name alone.
#[verifier::external_body]
fn section_data(file: &[u8], name: &str) -> (r: Option<Vec<u8>>)
    ensures
        match r {
            Some(v) => section_contents(file@, name@) == Some(v@),
            None => section_contents(file@, name@) is None,
        },
{
    let obj = object::File::parse(file).ok()?;
    let section = obj.section_by_name(name)?;
    section.data().ok().map(|d| d.to_vec())
}

/// The bytes of the `.text` section of an object file, `None` where the
/// file cannot be parsed or holds no readable `.text` section.
pub fn get_text_section(file: &[u8]) -> (r: Option<Vec<u8>>)
    ensures
        match r {
            Some(v) => section_contents(file@, text_name()) == Some(v@),
            None => section_contents(file@, text_name()) is None,
        },
{
    let name = ".text";
    proof {
        reveal_strlit(".text");
        assert(name@ =~= text_name());
    }
    section_data(file, name)
}

} // verus!
