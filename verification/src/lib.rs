//! Evolusjon av nevrale nettverk (NEAT-aktig): genomer, mutasjoner,
//! lagdeling av fenotype-nettverket, utvalg i populasjonen, tilstandsmaskinen
//! for simuleringen og heltallslogikken for kameraene.

pub mod tekst;
pub mod genome;
pub mod fenotype;
pub mod mutasjoner;
pub mod populasjon;
pub mod kamera;
pub mod dragning;
pub mod tilstand;
pub mod teller;
pub mod tegning;
pub mod fokus;
