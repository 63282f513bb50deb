# ai_gym

Nevroevolusjon i NEAT-stil: en populasjon av individer med genomer av noder og
vekter, et nettverk bygd fra hvert genom, mutasjoner som snur noder og vekter og
deler vekter med nye noder, og et utvalg der de beste overlever og får barn.

`src/` er biblioteket, verifisert med Verus:

- `genome` – genomet, innovasjonstelleren, tilfeldige startgenomer og kloning.
- `mutasjoner` – én mutasjonsrunde, gitt beslutningene for hver node og vekt.
- `fenotype` – nettverket: påslåtte vekter per node og lagene fra utgangen og bakover.
- `populasjon` – rangering etter poeng, eliten, hvem som dør og hvem som får barn.
- `tilstand` – kjøring, pause, evolusjonssteget og kjøring ett hakk om gangen.
- `kamera`, `dragning` – hvor i vinduene kameraene tegner, og musedrag.
- `teller`, `tegning`, `fokus`, `tekst` – teller, tegneplasser, markering og tall som tekst.

`app/` er Bevy-programmet rundt: vinduer, fysikk, tastatur og flyttallene
(bias, vektverdier, nodeverdier og poeng).
