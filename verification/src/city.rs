//! A named point on the globe and its text: the name, then latitude and
//! longitude as magnitudes with a hemisphere letter each.

use vstd::prelude::*;
use vstd::string::*;
use crate::degrees::Degrees;

verus! {

/// A named location with latitude and longitude in degrees.
#[derive(Debug)]
pub struct City {
    pub name: String,
    /// Latitude; north is positive.
    pub lat: Degrees,
    /// Longitude; east is positive.
    pub lon: Degrees,
}

/// The hemisphere letter of a latitude: `'N'` where it compares greater than
/// or equal to zero, `'S'` where it does not.
pub open spec fn latitude_letter(lat: Degrees) -> char {
    if lat.spec_at_least_zero() {
        'N'
    } else {
        'S'
    }
}

/// The hemisphere letter of a longitude: `'E'` where it compares greater
/// than or equal to zero, `'W'` where it does not.
pub open spec fn longitude_letter(lon: Degrees) -> char {
    if lon.spec_at_least_zero() {
        'E'
    } else {
        'W'
    }
}

impl Clone for City {
    fn clone(&self) -> (c: City)
        ensures
            c == *self,
    {
        City { name: self.name.clone(), lat: self.lat, lon: self.lon }
    }
}

impl City {
    /// The full text of the city:
    /// `<name>: <latitude>°<N or S> <longitude>°<E or W>`.
    pub open spec fn text(&self) -> Seq<char> {
        self.name@ + seq![':', ' '] + self.lat.magnitude_text() + seq![
            '°',
            latitude_letter(self.lat),
            ' ',
        ] + self.lon.magnitude_text() + seq!['°', longitude_letter(self.lon)]
    }

    /// A city from its name and coordinates.
    pub fn new(name: String, lat: Degrees, lon: Degrees) -> (c: City)
        ensures
            c == (City { name, lat, lon }),
    {
        City { name, lat, lon }
    }

    /// Renders the city as text.
    pub fn fmt(&self) -> (r: String)
        ensures
            r@ == self.text(),
    {
        proof {
            reveal_strlit(": ");
            reveal_strlit("°N ");
            reveal_strlit("°S ");
            reveal_strlit("°E");
            reveal_strlit("°W");
        }
        let mut out = String::new();
        out.append(self.name.as_str());
        out.append(": ");
        self.lat.push_magnitude(&mut out);
        if self.lat.at_least_zero() {
            out.append("°N ");
        } else {
            out.append("°S ");
        }
        self.lon.push_magnitude(&mut out);
        if self.lon.at_least_zero() {
            out.append("°E");
        } else {
            out.append("°W");
        }
        assert(out@ =~= self.text());
        out
    }
}

/// Where the hemisphere letters stand in the text of a city, and which
/// they are: the latitude's letter follows the first degree sign and is
/// `'N'` for a latitude of zero or more, `'S'` for one below zero; the
/// longitude's letter ends the text and is `'E'` for a longitude of zero or
/// more, `'W'` for one below zero.
pub proof fn lemma_hemisphere_letters(c: City)
    ensures
        c.text().len() == c.name@.len() + c.lat.magnitude_text().len()
            + c.lon.magnitude_text().len() + 7,
        c.text()[c.name@.len() + c.lat.magnitude_text().len() as int + 3] == latitude_letter(c.lat),
        c.text().last() == longitude_letter(c.lon),
        c.lat.spec_at_least_zero() ==> latitude_letter(c.lat) == 'N' && c.text().contains('N'),
        c.lat.below_zero() ==> latitude_letter(c.lat) == 'S' && c.text().contains('S'),
        c.lon.spec_at_least_zero() ==> longitude_letter(c.lon) == 'E' && c.text().contains('E'),
        c.lon.below_zero() ==> longitude_letter(c.lon) == 'W' && c.text().contains('W'),
{
    let t = c.text();
    let i = c.name@.len() + c.lat.magnitude_text().len() as int + 3;
    assert(t[i] == latitude_letter(c.lat));
    assert(t[t.len() - 1] == longitude_letter(c.lon));
}

} // verus!
