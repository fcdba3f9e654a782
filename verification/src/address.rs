//! Street and address documents built from one open-address record.

use vstd::prelude::*;
use vstd::string::*;
use crate::text::{joined, copy_of};

verus! {

/// Whether `c` may not stand in the house-number part of an identity.
pub open spec fn is_separator(c: char) -> bool {
    c == ' ' || c == '\t' || c == '\r' || c == '\n' || c == '/' || c == '.' || c == ':'
        || c == ';'
}

/// What `c` becomes in the house-number part of an identity.
pub open spec fn sanitized_char(c: char) -> char {
    if is_separator(c) {
        '-'
    } else {
        c
    }
}

/// The house number as it stands in an identity: every separator
/// replaced by a hyphen, every other character kept, in place.
pub open spec fn sanitized(number: Seq<char>) -> Seq<char> {
    Seq::new(number.len(), |i: int| sanitized_char(number[i]))
}

/// Replaces one character for the house-number part of an identity.
pub fn sanitize_char(c: char) -> (r: char)
    ensures
        r == sanitized_char(c),
{
    if c == ' ' || c == '\t' || c == '\r' || c == '\n' || c == '/' || c == '.' || c == ':'
        || c == ';' {
        '-'
    } else {
        c
    }
}

/// Makes a house number fit for an identity. Never fails, whatever the
/// number holds.
pub fn sanitize_number(number: &str) -> (r: String)
    ensures
        r@ == sanitized(number@),
{
    let n: usize = number.unicode_len();
    let mut r = String::new();
    let mut i: usize = 0;
    while i < n
        invariant
            n == number@.len(),
            i <= n,
            r@ == sanitized(number@.subrange(0, i as int)),
        decreases n - i,
    {
        let c: char = number.get_char(i);
        r.push(sanitize_char(c));
        i = i + 1;
        assert(r@ =~= sanitized(number@.subrange(0, i as int)));
    }
    assert(number@.subrange(0, n as int) =~= number@);
    r
}


/// A coordinate, each part in its decimal text: the shortest text that
/// reads back as the same number.
#[derive(Debug, PartialEq, Eq)]
pub struct Coord {
    pub lon: String,
    pub lat: String,
}

/// What a coordinate holds.
pub struct CoordView {
    pub lon: Seq<char>,
    pub lat: Seq<char>,
}

impl View for Coord {
    type V = CoordView;

    open spec fn view(&self) -> CoordView {
        CoordView { lon: self.lon@, lat: self.lat@ }
    }
}

/// An administrative region that encloses a coordinate, as far as an
/// address depends on it. The weight is the 64-bit pattern of the
/// region's popularity; the pattern of all zero bits is the weight zero.
#[derive(Debug, PartialEq, Eq)]
pub struct Region {
    pub id: String,
    pub is_city: bool,
    pub weight: u64,
}

/// What a region holds.
pub struct RegionView {
    pub id: Seq<char>,
    pub is_city: bool,
    pub weight: u64,
}

impl View for Region {
    type V = RegionView;

    open spec fn view(&self) -> RegionView {
        RegionView { id: self.id@, is_city: self.is_city, weight: self.weight }
    }
}

/// The regions of a list, each by what it holds.
pub open spec fn region_views(regions: Seq<Region>) -> Seq<RegionView> {
    Seq::new(regions.len(), |i: int| regions[i]@)
}

/// The weight that a list of enclosing regions gives, smallest region
/// first: that of the first city among them, zero where there is none.
pub open spec fn city_weight(regions: Seq<RegionView>) -> u64
    decreases regions.len(),
{
    if regions.len() == 0 {
        0
    } else if regions[0].is_city {
        regions[0].weight
    } else {
        city_weight(regions.drop_first())
    }
}

/// Finds the weight of an address among its enclosing regions.
pub fn derive_weight(regions: &Vec<Region>) -> (w: u64)
    ensures
        w == city_weight(region_views(regions@)),
{
    let ghost all = region_views(regions@);
    let mut i: usize = 0;
    assert(all.subrange(0, all.len() as int) =~= all);
    while i < regions.len()
        invariant
            i <= regions.len(),
            all == region_views(regions@),
            city_weight(all) == city_weight(all.subrange(i as int, all.len() as int)),
        decreases regions.len() - i,
    {
        let ghost rest = all.subrange(i as int, all.len() as int);
        assert(rest[0] == regions@[i as int]@);
        if regions[i].is_city {
            return regions[i].weight;
        }
        assert(rest.drop_first() =~= all.subrange(i + 1, all.len() as int));
        i = i + 1;
    }
    assert(all.subrange(i as int, all.len() as int).len() == 0);
    0
}


/// The texts of a list, each by its characters.
pub open spec fn texts(list: Seq<String>) -> Seq<Seq<char>> {
    Seq::new(list.len(), |i: int| list[i]@)
}

/// What an optional coordinate holds.
pub open spec fn coord_option_view(c: Option<Coord>) -> Option<CoordView> {
    match c {
        Some(c) => Some(c@),
        None => None,
    }
}

/// A street document.
#[derive(Debug, PartialEq, Eq)]
pub struct Street {
    pub id: String,
    pub name: String,
    pub label: String,
    pub administrative_regions: Vec<Region>,
    pub weight: u64,
    pub zip_codes: Vec<String>,
    pub coord: Coord,
    pub approx_coord: Option<Coord>,
    pub distance: Option<u32>,
}

/// What a street document holds.
pub struct StreetView {
    pub id: Seq<char>,
    pub name: Seq<char>,
    pub label: Seq<char>,
    pub administrative_regions: Seq<RegionView>,
    pub weight: u64,
    pub zip_codes: Seq<Seq<char>>,
    pub coord: CoordView,
    pub approx_coord: Option<CoordView>,
    pub distance: Option<u32>,
}

impl View for Street {
    type V = StreetView;

    open spec fn view(&self) -> StreetView {
        StreetView {
            id: self.id@,
            name: self.name@,
            label: self.label@,
            administrative_regions: region_views(self.administrative_regions@),
            weight: self.weight,
            zip_codes: texts(self.zip_codes@),
            coord: self.coord@,
            approx_coord: coord_option_view(self.approx_coord),
            distance: self.distance,
        }
    }
}

/// An address document: a numbered house on a street.
#[derive(Debug, PartialEq, Eq)]
pub struct Addr {
    pub id: String,
    pub name: String,
    pub house_number: String,
    pub street: Street,
    pub label: String,
    pub coord: Coord,
    pub approx_coord: Option<Coord>,
    pub weight: u64,
    pub zip_codes: Vec<String>,
    pub distance: Option<u32>,
}

/// What an address document holds.
pub struct AddrView {
    pub id: Seq<char>,
    pub name: Seq<char>,
    pub house_number: Seq<char>,
    pub street: StreetView,
    pub label: Seq<char>,
    pub coord: CoordView,
    pub approx_coord: Option<CoordView>,
    pub weight: u64,
    pub zip_codes: Seq<Seq<char>>,
    pub distance: Option<u32>,
}

impl View for Addr {
    type V = AddrView;

    open spec fn view(&self) -> AddrView {
        AddrView {
            id: self.id@,
            name: self.name@,
            house_number: self.house_number@,
            street: self.street@,
            label: self.label@,
            coord: self.coord@,
            approx_coord: coord_option_view(self.approx_coord),
            weight: self.weight,
            zip_codes: texts(self.zip_codes@),
            distance: self.distance,
        }
    }
}

/// One record of an open-address file. Latitude and longitude stand in
/// their decimal text, as `Coord` holds them.
#[derive(Debug, PartialEq, Eq)]
pub struct OpenAddresse {
    pub id: String,
    pub street: String,
    pub postcode: String,
    pub district: String,
    pub region: String,
    pub city: String,
    pub number: String,
    pub unit: String,
    pub lat: String,
    pub lon: String,
}

/// What a record holds.
pub struct OpenAddresseView {
    pub id: Seq<char>,
    pub street: Seq<char>,
    pub postcode: Seq<char>,
    pub district: Seq<char>,
    pub region: Seq<char>,
    pub city: Seq<char>,
    pub number: Seq<char>,
    pub unit: Seq<char>,
    pub lat: Seq<char>,
    pub lon: Seq<char>,
}

impl View for OpenAddresse {
    type V = OpenAddresseView;

    open spec fn view(&self) -> OpenAddresseView {
        OpenAddresseView {
            id: self.id@,
            street: self.street@,
            postcode: self.postcode@,
            district: self.district@,
            region: self.region@,
            city: self.city@,
            number: self.number@,
            unit: self.unit@,
            lat: self.lat@,
            lon: self.lon@,
        }
    }
}

/// The identity of the street of the record `id`.
pub open spec fn street_id(id: Seq<char>) -> Seq<char> {
    "street:"@ + id
}

/// A display label: the name, then the city in round brackets.
pub open spec fn label_of(name: Seq<char>, city: Seq<char>) -> Seq<char> {
    name + " ("@ + city + ")"@
}

/// The name of an address: house number, a space, the street's name.
pub open spec fn addr_name(number: Seq<char>, street: Seq<char>) -> Seq<char> {
    number + " "@ + street
}

/// The identity of an address. With `legacy` it names the coordinate
/// alone; without, the sanitized house number follows.
pub open spec fn addr_id(lon: Seq<char>, lat: Seq<char>, number: Seq<char>, legacy: bool) -> Seq<
    char,
> {
    let place = "addr:"@ + lon + ","@ + lat;
    if legacy {
        place
    } else {
        place + ":"@ + sanitized(number)
    }
}

/// Builds the identity of a street.
pub fn make_street_id(id: &str) -> (r: String)
    ensures
        r@ == street_id(id@),
{
    joined("street:", id)
}

/// Builds a display label.
pub fn make_label(name: &str, city: &str) -> (r: String)
    ensures
        r@ == label_of(name@, city@),
{
    let mut r = joined(name, " (");
    r.append(city);
    r.append(")");
    r
}

/// Builds the name of an address.
pub fn make_addr_name(number: &str, street: &str) -> (r: String)
    ensures
        r@ == addr_name(number@, street@),
{
    let mut r = joined(number, " ");
    r.append(street);
    r
}

/// Builds the identity of an address.
pub fn make_addr_id(lon: &str, lat: &str, number: &str, legacy: bool) -> (r: String)
    ensures
        r@ == addr_id(lon@, lat@, number@, legacy),
{
    let mut r = joined("addr:", lon);
    r.append(",");
    r.append(lat);
    if !legacy {
        r.append(":");
        let suffix = sanitize_number(number);
        r.append(suffix.as_str());
    }
    r
}

/// The street document that a record and its enclosing regions give.
pub open spec fn street_of(record: OpenAddresseView, regions: Seq<RegionView>) -> StreetView {
    StreetView {
        id: street_id(record.id),
        name: record.street,
        label: label_of(record.street, record.city),
        administrative_regions: regions,
        weight: city_weight(regions),
        zip_codes: seq![record.postcode],
        coord: CoordView { lon: record.lon, lat: record.lat },
        approx_coord: None,
        distance: None,
    }
}

/// The address document that a record and its enclosing regions give.
/// The approximate coordinate is set only where the identity carries
/// the house number.
pub open spec fn addr_of(record: OpenAddresseView, regions: Seq<RegionView>, legacy: bool) -> AddrView {
    let name = addr_name(record.number, record.street);
    let coord = CoordView { lon: record.lon, lat: record.lat };
    AddrView {
        id: addr_id(record.lon, record.lat, record.number, legacy),
        name: name,
        house_number: record.number,
        street: street_of(record, regions),
        label: label_of(name, record.city),
        coord: coord,
        approx_coord: if legacy {
            None
        } else {
            Some(coord)
        },
        weight: city_weight(regions),
        zip_codes: seq![record.postcode],
        distance: None,
    }
}

impl OpenAddresse {
    /// Builds the address document of this record. `admins` are the
    /// regions that enclose its coordinate, smallest first; with
    /// `use_old_index_format` the identity leaves the house number out.
    pub fn into_addr(self, admins: Vec<Region>, use_old_index_format: bool) -> (addr: Addr)
        ensures
            addr@ == addr_of(self@, region_views(admins@), use_old_index_format),
    {
        let street_label = make_label(self.street.as_str(), self.city.as_str());
        let name = make_addr_name(self.number.as_str(), self.street.as_str());
        let label = make_label(name.as_str(), self.city.as_str());
        let id = make_addr_id(
            self.lon.as_str(),
            self.lat.as_str(),
            self.number.as_str(),
            use_old_index_format,
        );
        let weight = derive_weight(&admins);
        let approx_coord = if use_old_index_format {
            None
        } else {
            Some(Coord { lon: copy_of(&self.lon), lat: copy_of(&self.lat) })
        };
        let street_zip_codes = vec![copy_of(&self.postcode)];
        let zip_codes = vec![copy_of(&self.postcode)];
        let street = Street {
            id: make_street_id(self.id.as_str()),
            name: self.street,
            label: street_label,
            administrative_regions: admins,
            weight: weight,
            zip_codes: street_zip_codes,
            coord: Coord { lon: copy_of(&self.lon), lat: copy_of(&self.lat) },
            approx_coord: None,
            distance: None,
        };
        let addr = Addr {
            id: id,
            name: name,
            house_number: self.number,
            street: street,
            label: label,
            coord: Coord { lon: self.lon, lat: self.lat },
            approx_coord: approx_coord,
            weight: weight,
            zip_codes: zip_codes,
            distance: None,
        };
        proof {
            assert(texts(addr.zip_codes@) =~= seq![self.postcode@]);
            assert(texts(addr.street.zip_codes@) =~= seq![self.postcode@]);
        }
        addr
    }
}


/// Sanitizing keeps the length of a house number, puts a hyphen where a
/// separator stood, and leaves every other character as it was.
pub proof fn lemma_sanitized_replaces_separators_only(number: Seq<char>)
    ensures
        sanitized(number).len() == number.len(),
        forall|i: int|
            0 <= i < number.len() && is_separator(number[i]) ==> #[trigger] sanitized(number)[i]
                == '-',
        forall|i: int|
            0 <= i < number.len() && !is_separator(number[i]) ==> #[trigger] sanitized(number)[i]
                == number[i],
{
}

/// Two texts that begin alike and differ later differ as a whole.
proof fn lemma_same_start_other_end(start: Seq<char>, a: Seq<char>, b: Seq<char>)
    requires
        a != b,
    ensures
        start + a != start + b,
{
    let n = start.len() as int;
    assert((start + a).subrange(n, n + a.len()) =~= a);
    assert((start + b).subrange(n, n + b.len()) =~= b);
}

/// Records at one coordinate with one house number get one identity,
/// whatever else they hold and whichever regions enclose them.
pub proof fn lemma_identity_is_determined(
    a: OpenAddresseView,
    b: OpenAddresseView,
    regions_a: Seq<RegionView>,
    regions_b: Seq<RegionView>,
)
    requires
        a.lon == b.lon,
        a.lat == b.lat,
        a.number == b.number,
    ensures
        addr_of(a, regions_a, false).id == addr_of(b, regions_b, false).id,
{
}

/// Records at one coordinate whose house numbers still differ once
/// sanitized get different identities where the identity carries the
/// house number, and one identity where it does not.
pub proof fn lemma_house_number_separates_identities(
    a: OpenAddresseView,
    b: OpenAddresseView,
    regions_a: Seq<RegionView>,
    regions_b: Seq<RegionView>,
)
    requires
        a.lon == b.lon,
        a.lat == b.lat,
        sanitized(a.number) != sanitized(b.number),
    ensures
        a.number != b.number,
        addr_of(a, regions_a, false).id != addr_of(b, regions_b, false).id,
        addr_of(a, regions_a, true).id == addr_of(b, regions_b, true).id,
{
    let start = "addr:"@ + a.lon + ","@ + a.lat + ":"@;
    lemma_same_start_other_end(start, sanitized(a.number), sanitized(b.number));
}

/// Where identities leave the house number out, records at one
/// coordinate collide, whatever their house numbers.
pub proof fn lemma_legacy_identities_collide(
    a: OpenAddresseView,
    b: OpenAddresseView,
    regions_a: Seq<RegionView>,
    regions_b: Seq<RegionView>,
)
    requires
        a.lon == b.lon,
        a.lat == b.lat,
    ensures
        addr_of(a, regions_a, true).id == addr_of(b, regions_b, true).id,
{
}

/// The weight of an address and of its street is that of the first city
/// among the enclosing regions.
pub proof fn lemma_weight_is_that_of_first_city(
    record: OpenAddresseView,
    regions: Seq<RegionView>,
    legacy: bool,
    first: int,
)
    requires
        0 <= first < regions.len(),
        regions[first].is_city,
        forall|j: int| 0 <= j < first ==> !regions[j].is_city,
    ensures
        city_weight(regions) == regions[first].weight,
        addr_of(record, regions, legacy).weight == regions[first].weight,
        addr_of(record, regions, legacy).street.weight == regions[first].weight,
    decreases first,
{
    if first > 0 {
        let rest = regions.drop_first();
        assert(rest[first - 1] == regions[first]);
        assert forall|j: int| 0 <= j < first - 1 implies !rest[j].is_city by {
            assert(rest[j] == regions[j + 1]);
        }
        lemma_weight_is_that_of_first_city(record, rest, legacy, first - 1);
    }
}

/// With no city among the enclosing regions, and so with no region at
/// all, the weight of an address and of its street is zero.
pub proof fn lemma_weight_is_zero_without_city(
    record: OpenAddresseView,
    regions: Seq<RegionView>,
    legacy: bool,
)
    requires
        forall|j: int| 0 <= j < regions.len() ==> !regions[j].is_city,
    ensures
        city_weight(regions) == 0,
        addr_of(record, regions, legacy).weight == 0,
        addr_of(record, regions, legacy).street.weight == 0,
    decreases regions.len(),
{
    if regions.len() > 0 {
        let rest = regions.drop_first();
        assert forall|j: int| 0 <= j < rest.len() implies !rest[j].is_city by {
            assert(rest[j] == regions[j + 1]);
        }
        lemma_weight_is_zero_without_city(record, rest, legacy);
    }
}


impl Clone for Region {
    fn clone(&self) -> (r: Region)
        ensures
            r@ == self@,
    {
        Region { id: copy_of(&self.id), is_city: self.is_city, weight: self.weight }
    }
}

impl Clone for OpenAddresse {
    fn clone(&self) -> (r: OpenAddresse)
        ensures
            r@ == self@,
    {
        OpenAddresse {
            id: copy_of(&self.id),
            street: copy_of(&self.street),
            postcode: copy_of(&self.postcode),
            district: copy_of(&self.district),
            region: copy_of(&self.region),
            city: copy_of(&self.city),
            number: copy_of(&self.number),
            unit: copy_of(&self.unit),
            lat: copy_of(&self.lat),
            lon: copy_of(&self.lon),
        }
    }
}

/// Copies a list of regions, in order.
pub fn copy_regions(regions: &Vec<Region>) -> (r: Vec<Region>)
    ensures
        region_views(r@) == region_views(regions@),
{
    let mut r: Vec<Region> = Vec::new();
    let mut i: usize = 0;
    while i < regions.len()
        invariant
            i <= regions.len(),
            r@.len() == i,
            region_views(r@) == region_views(regions@.subrange(0, i as int)),
        decreases regions.len() - i,
    {
        let ghost before = r@;
        r.push(regions[i].clone());
        proof {
            let shorter = regions@.subrange(0, i as int);
            let longer = regions@.subrange(0, i + 1);
            assert forall|j: int| 0 <= j < r@.len() implies region_views(r@)[j] == region_views(
                longer,
            )[j] by {
                if j < i {
                    assert(region_views(before)[j] == region_views(shorter)[j]);
                }
            }
            assert(region_views(r@) =~= region_views(longer));
        }
        i = i + 1;
    }
    assert(regions@.subrange(0, i as int) =~= regions@);
    r
}

} // verus!
