//! Topic addresses of the bus, their grammar, parsing and serialization.
//!
//! Grammar: `<root>/<scope>[/<deviceId>]/<facetName>/<facetVersion>[/<field>]*`.
//! A `d2d` scope carries an explicit device-id segment, a `field` scope does
//! not; trailing segments form an ordered qualifier list.

use crate::keyed::lemma_map_values_push;
use crate::text::{join_segments, join_with_sep, no_sep, split_at_seps, split_text, str_equal};
use vstd::prelude::*;

verus! {

/// The scope of an address: a field-wide topic or a device-to-device one.
#[derive(Clone, Copy, PartialEq, Eq, Structural, Debug)]
pub enum UriType {
    Field,
    D2D,
}

/// The scope segment was neither `field` nor `d2d`.
#[derive(Debug)]
pub struct ParseUriTypeError;

/// The address text does not follow the grammar.
#[derive(Debug)]
pub struct ParseUriError;

impl UriType {
    /// The scope literal this scope serializes to.
    pub open spec fn spec_text(self) -> Seq<char> {
        match self {
            UriType::Field => "field"@,
            UriType::D2D => "d2d"@,
        }
    }

    /// Which scope a segment denotes, if any.
    pub open spec fn spec_parse(s: Seq<char>) -> Option<UriType> {
        if s == "field"@ {
            Some(UriType::Field)
        } else if s == "d2d"@ {
            Some(UriType::D2D)
        } else {
            None
        }
    }

    /// Parse a scope literal; any other text is rejected.
    pub fn from_str(input: &str) -> (r: Result<UriType, ParseUriTypeError>)
        ensures
            match UriType::spec_parse(input@) {
                Some(t) => r matches Ok(got) && got == t,
                None => r is Err,
            },
    {
        if str_equal(input, "field") {
            Ok(UriType::Field)
        } else if str_equal(input, "d2d") {
            Ok(UriType::D2D)
        } else {
            Err(ParseUriTypeError)
        }
    }

    /// The scope literal as owned text.
    pub fn to_text(&self) -> (r: String)
        ensures
            r@ == self.spec_text(),
    {
        match self {
            UriType::Field => "field".to_owned(),
            UriType::D2D => "d2d".to_owned(),
        }
    }
}

/// Mathematical value of a [`UriBase`].
pub struct UriBaseView {
    pub name: Seq<char>,
    pub scope: UriType,
}

/// The leading part of an address: the root literal and the scope.
pub struct UriBase {
    name: String,
    scope: UriType,
}

impl View for UriBase {
    type V = UriBaseView;

    closed spec fn view(&self) -> UriBaseView {
        UriBaseView { name: self.name@, scope: self.scope }
    }
}

impl UriBase {
    pub fn get_name(&self) -> (r: &String)
        ensures
            r@ == self@.name,
    {
        &self.name
    }

    pub fn get_scope(&self) -> (r: &UriType)
        ensures
            *r == self@.scope,
    {
        &self.scope
    }
}

/// Mathematical value of a [`UriDevice`].
pub struct UriDeviceView {
    pub id: Seq<char>,
}

/// The device-id segment of a device-to-device address.
pub struct UriDevice {
    id: String,
}

impl View for UriDevice {
    type V = UriDeviceView;

    closed spec fn view(&self) -> UriDeviceView {
        UriDeviceView { id: self.id@ }
    }
}

impl UriDevice {
    pub fn get_id(&self) -> (r: &String)
        ensures
            r@ == self@.id,
    {
        &self.id
    }
}

/// Mathematical value of a [`UriFacet`].
pub struct UriFacetView {
    pub name: Seq<char>,
    pub version: Seq<char>,
}

/// The message schema an address speaks, and its version.
pub struct UriFacet {
    name: String,
    version: String,
}

impl View for UriFacet {
    type V = UriFacetView;

    closed spec fn view(&self) -> UriFacetView {
        UriFacetView { name: self.name@, version: self.version@ }
    }
}

impl UriFacet {
    pub fn get_name(&self) -> (r: &String)
        ensures
            r@ == self@.name,
    {
        &self.name
    }

    pub fn get_version(&self) -> (r: &String)
        ensures
            r@ == self@.version,
    {
        &self.version
    }
}

/// The ordered trailing qualifier segments of an address.
pub struct UriFields {
    names: Vec<String>,
}

impl View for UriFields {
    type V = Seq<Seq<char>>;

    closed spec fn view(&self) -> Seq<Seq<char>> {
        self.names@.map_values(|x: String| x@)
    }
}

impl UriFields {
    pub fn get_names(&self) -> (r: &Vec<String>)
        ensures
            r@.map_values(|x: String| x@) == self@,
    {
        &self.names
    }
}

/// Mathematical value of a [`Uri`].
pub struct UriView {
    pub base: UriBaseView,
    pub device: Option<UriDeviceView>,
    pub facet: UriFacetView,
    pub fields: Seq<Seq<char>>,
}

/// The root literal every constructed address starts with.
pub open spec fn spec_root_literal() -> Seq<char> {
    "jhome"@
}

/// A field-scoped address under the fixed root.
pub open spec fn spec_field_uri(
    facet_name: Seq<char>,
    facet_version: Seq<char>,
    fields: Seq<Seq<char>>,
) -> UriView {
    UriView {
        base: UriBaseView { name: spec_root_literal(), scope: UriType::Field },
        device: None,
        facet: UriFacetView { name: facet_name, version: facet_version },
        fields,
    }
}

/// A device-to-device address under the fixed root.
pub open spec fn spec_d2d_uri(
    device_id: Seq<char>,
    facet_name: Seq<char>,
    facet_version: Seq<char>,
    fields: Seq<Seq<char>>,
) -> UriView {
    UriView {
        base: UriBaseView { name: spec_root_literal(), scope: UriType::D2D },
        device: Some(UriDeviceView { id: device_id }),
        facet: UriFacetView { name: facet_name, version: facet_version },
        fields,
    }
}

/// The segments an address serializes to, in order.
pub open spec fn segments_of(u: UriView) -> Seq<Seq<char>> {
    match u.device {
        Some(d) => seq![u.base.name, u.base.scope.spec_text(), d.id, u.facet.name,
            u.facet.version] + u.fields,
        None => seq![u.base.name, u.base.scope.spec_text(), u.facet.name, u.facet.version]
            + u.fields,
    }
}

/// The serialized text of an address.
pub open spec fn spec_to_text(u: UriView) -> Seq<char> {
    join_with_sep(segments_of(u))
}

/// Which address a segment list denotes, if any: the fixed root literal,
/// the scope, an explicit device id for the `d2d` scope, facet name and
/// version, then the fields. Any other root literal is rejected.
pub open spec fn spec_parse_segments(segs: Seq<Seq<char>>) -> Option<UriView> {
    if segs.len() < 2 {
        None
    } else if segs[0] != spec_root_literal() {
        None
    } else {
        match UriType::spec_parse(segs[1]) {
            None => None,
            Some(UriType::Field) => {
                if segs.len() < 4 {
                    None
                } else {
                    Some(
                        UriView {
                            base: UriBaseView { name: segs[0], scope: UriType::Field },
                            device: None,
                            facet: UriFacetView { name: segs[2], version: segs[3] },
                            fields: segs.skip(4),
                        },
                    )
                }
            },
            Some(UriType::D2D) => {
                if segs.len() < 5 {
                    None
                } else {
                    Some(
                        UriView {
                            base: UriBaseView { name: segs[0], scope: UriType::D2D },
                            device: Some(UriDeviceView { id: segs[2] }),
                            facet: UriFacetView { name: segs[3], version: segs[4] },
                            fields: segs.skip(5),
                        },
                    )
                }
            },
        }
    }
}

/// Which address a text denotes, if any.
pub open spec fn spec_parse_uri(s: Seq<char>) -> Option<UriView> {
    spec_parse_segments(split_at_seps(s))
}

/// The address starts with the fixed root literal, no variable segment
/// holds the separator, and the device segment is present exactly for the
/// `d2d` scope. Every address the two constructors build from
/// separator-free arguments satisfies this.
pub open spec fn uri_wf(u: UriView) -> bool {
    &&& u.base.name == spec_root_literal()
    &&& (u.device matches Some(d) ==> no_sep(d.id))
    &&& (u.device is Some <==> u.base.scope is D2D)
    &&& no_sep(u.facet.name)
    &&& no_sep(u.facet.version)
    &&& (forall|i: int| 0 <= i < u.fields.len() ==> no_sep(#[trigger] u.fields[i]))
}

/// Round trip: parsing the serialized form of any well-formed address gives
/// back exactly that address, for both scopes and any number of fields.
pub proof fn lemma_uri_round_trip(u: UriView)
    requires
        uri_wf(u),
    ensures
        spec_parse_uri(spec_to_text(u)) == Some(u),
{
    reveal_strlit("jhome");
    reveal_strlit("field");
    reveal_strlit("d2d");
    let segs = segments_of(u);
    assert(no_sep("jhome"@));
    assert(no_sep(u.base.name));
    assert(no_sep("field"@));
    assert(no_sep("d2d"@));
    assert(no_sep(u.base.scope.spec_text()));
    assert forall|i: int| 0 <= i < segs.len() implies no_sep(#[trigger] segs[i]) by {
        match u.device {
            Some(d) => {
                if i >= 5 {
                    assert(segs[i] == u.fields[i - 5]);
                }
            },
            None => {
                if i >= 4 {
                    assert(segs[i] == u.fields[i - 4]);
                }
            },
        }
    }
    crate::text::lemma_split_join(segs);
    assert(("field"@).len() == 5);
    assert(("d2d"@).len() == 3);
    match u.device {
        Some(d) => {
            assert(segs[1] == "d2d"@);
            assert(segs[1] != "field"@);
            assert(UriType::spec_parse(segs[1]) == Some(UriType::D2D));
            let parsed = spec_parse_segments(segs)->Some_0;
            assert(segs.skip(5) =~= u.fields);
            assert(parsed.device == Some(UriDeviceView { id: d.id }));
            assert(parsed == u);
        },
        None => {
            assert(segs[1] == "field"@);
            assert(UriType::spec_parse(segs[1]) == Some(UriType::Field));
            let parsed = spec_parse_segments(segs)->Some_0;
            assert(segs.skip(4) =~= u.fields);
            assert(parsed == u);
        },
    }
}

/// A structured topic address of the bus.
pub struct Uri {
    base: UriBase,
    device: Option<UriDevice>,
    facet: UriFacet,
    fields: UriFields,
}

impl View for Uri {
    type V = UriView;

    closed spec fn view(&self) -> UriView {
        UriView {
            base: self.base@,
            device: match self.device {
                Some(d) => Some(d@),
                None => None,
            },
            facet: self.facet@,
            fields: self.fields@,
        }
    }
}

impl Uri {
    /// A field-scoped address under the fixed root.
    pub fn new_field_uri(facet_name: String, facet_version: String, fields_names: Vec<String>)
        -> (r: Uri)
        ensures
            r@ == spec_field_uri(
                facet_name@,
                facet_version@,
                fields_names@.map_values(|x: String| x@),
            ),
    {
        let root: String = "jhome".to_owned();
        Uri {
            base: UriBase { name: root, scope: UriType::Field },
            device: None,
            facet: UriFacet { name: facet_name, version: facet_version },
            fields: UriFields { names: fields_names },
        }
    }

    /// A device-to-device address under the fixed root.
    pub fn new_d2d_uri(
        device_id: String,
        facet_name: String,
        facet_version: String,
        fields_names: Vec<String>,
    ) -> (r: Uri)
        ensures
            r@ == spec_d2d_uri(
                device_id@,
                facet_name@,
                facet_version@,
                fields_names@.map_values(|x: String| x@),
            ),
    {
        let root: String = "jhome".to_owned();
        Uri {
            base: UriBase { name: root, scope: UriType::D2D },
            device: Some(UriDevice { id: device_id }),
            facet: UriFacet { name: facet_name, version: facet_version },
            fields: UriFields { names: fields_names },
        }
    }

    pub fn get_base(&self) -> (r: &UriBase)
        ensures
            r@ == self@.base,
    {
        &self.base
    }

    pub fn get_device(&self) -> (r: &Option<UriDevice>)
        ensures
            match r {
                Some(d) => self@.device == Some(d@),
                None => self@.device is None,
            },
    {
        &self.device
    }

    pub fn get_facet(&self) -> (r: &UriFacet)
        ensures
            r@ == self@.facet,
    {
        &self.facet
    }

    pub fn get_fields(&self) -> (r: &UriFields)
        ensures
            r@ == self@.fields,
    {
        &self.fields
    }

    /// Parse an address text against the grammar; a root other than the
    /// fixed literal, a missing required segment or an unrecognized scope
    /// literal is rejected.
    pub fn from_str(s: &str) -> (r: Result<Uri, ParseUriError>)
        ensures
            match spec_parse_uri(s@) {
                Some(u) => r matches Ok(got) && got@ == u,
                None => r is Err,
            },
    {
        let ghost f = |x: String| x@;
        let segs = split_text(s);
        let ghost sv = segs@.map_values(f);
        if segs.len() < 2 {
            return Err(ParseUriError);
        }
        if !str_equal(segs[0].as_str(), "jhome") {
            return Err(ParseUriError);
        }
        let scope = match UriType::from_str(segs[1].as_str()) {
            Ok(t) => t,
            Err(_) => {
                return Err(ParseUriError);
            },
        };
        match scope {
            UriType::Field => {
                if segs.len() < 4 {
                    return Err(ParseUriError);
                }
                let fields = collect_fields(&segs, 4);
                let r = Uri {
                    base: UriBase { name: segs[0].clone(), scope: UriType::Field },
                    device: None,
                    facet: UriFacet { name: segs[2].clone(), version: segs[3].clone() },
                    fields: UriFields { names: fields },
                };
                proof {
                    assert(r@.fields =~= sv.skip(4));
                    assert(r@ == spec_parse_uri(s@)->Some_0);
                }
                Ok(r)
            },
            UriType::D2D => {
                if segs.len() < 5 {
                    return Err(ParseUriError);
                }
                let fields = collect_fields(&segs, 5);
                let r = Uri {
                    base: UriBase { name: segs[0].clone(), scope: UriType::D2D },
                    device: Some(UriDevice { id: segs[2].clone() }),
                    facet: UriFacet { name: segs[3].clone(), version: segs[4].clone() },
                    fields: UriFields { names: fields },
                };
                proof {
                    assert(r@.fields =~= sv.skip(5));
                    assert(r@ == spec_parse_uri(s@)->Some_0);
                }
                Ok(r)
            },
        }
    }

    /// Serialize the address: the exact structural inverse of parsing.
    pub fn to_text(&self) -> (r: String)
        ensures
            r@ == spec_to_text(self@),
    {
        let ghost f = |x: String| x@;
        let mut segs: Vec<String> = Vec::new();
        segs.push(self.base.name.clone());
        segs.push(self.base.scope.to_text());
        match &self.device {
            Some(d) => {
                segs.push(d.id.clone());
            },
            None => {},
        }
        segs.push(self.facet.name.clone());
        segs.push(self.facet.version.clone());
        let ghost head = segs@.map_values(f);
        let n = self.fields.names.len();
        let mut i: usize = 0;
        while i < n
            invariant
                i <= n,
                n == self.fields.names.len(),
                segs@.map_values(f) == head + self@.fields.take(i as int),
            decreases n - i,
        {
            let ghost pre = segs@;
            segs.push(self.fields.names[i].clone());
            proof {
                lemma_map_values_push(pre, f, self.fields.names@[i as int]);
                assert(head + self@.fields.take(i + 1 as int) =~= (head + self@.fields.take(
                    i as int,
                )).push(self@.fields[i as int]));
            }
            i += 1;
        }
        proof {
            assert(self@.fields.take(n as int) =~= self@.fields);
            assert(segs@.map_values(f) =~= segments_of(self@));
        }
        join_segments(&segs)
    }
}

/// Clone the segments from `start` on: the ordered field list of an address.
fn collect_fields(segs: &Vec<String>, start: usize) -> (r: Vec<String>)
    requires
        start <= segs@.len(),
    ensures
        r@.map_values(|x: String| x@) == segs@.map_values(|x: String| x@).skip(start as int),
{
    let ghost f = |x: String| x@;
    let mut r: Vec<String> = Vec::new();
    let n = segs.len();
    let mut i: usize = start;
    proof {
        assert(r@.map_values(f) =~= segs@.map_values(f).subrange(start as int, start as int));
    }
    while i < n
        invariant
            start <= i <= n,
            r@.map_values(f) == segs@.map_values(f).subrange(start as int, i as int),
        decreases n - i,
    {
        let ghost pre = r@;
        r.push(segs[i].clone());
        proof {
            lemma_map_values_push(pre, f, segs@[i as int]);
            assert(segs@.map_values(f).subrange(start as int, i + 1 as int) =~= segs@.map_values(
                f,
            ).subrange(start as int, i as int).push(segs@.map_values(f)[i as int]));
        }
        i += 1;
    }
    proof {
        assert(segs@.map_values(f).subrange(start as int, n as int) =~= segs@.map_values(f).skip(
            start as int,
        ));
    }
    r
}

} // verus!
