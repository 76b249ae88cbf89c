use jakescript::enumerate::{variant_from_str, Enumerate, EnumerateStr, NoSuchVariantError};
use vstd::seq::Seq;

#[derive(Clone, Debug)]
enum Empty {}

impl Enumerate for Empty {
    fn spec_enumerate() -> Seq<Self> {
        unreachable!("a name for verification only")
    }

    fn enumerate() -> Vec<Self> {
        vec![]
    }
}

impl EnumerateStr for Empty {
    fn spec_as_str(&self) -> Seq<char> {
        unreachable!("a name for verification only")
    }

    fn as_str(&self) -> &'static str {
        match *self {}
    }
}

#[derive(Clone, Debug)]
enum Single {
    Item1,
}

impl Enumerate for Single {
    fn spec_enumerate() -> Seq<Self> {
        unreachable!("a name for verification only")
    }

    fn enumerate() -> Vec<Self> {
        vec![Single::Item1]
    }
}

impl EnumerateStr for Single {
    fn spec_as_str(&self) -> Seq<char> {
        unreachable!("a name for verification only")
    }

    fn as_str(&self) -> &'static str {
        match self {
            Single::Item1 => "Item1",
        }
    }
}

#[derive(Clone, Debug)]
enum Couple {
    Item1,
    Item2,
}

impl Enumerate for Couple {
    fn spec_enumerate() -> Seq<Self> {
        unreachable!("a name for verification only")
    }

    fn enumerate() -> Vec<Self> {
        vec![Couple::Item1, Couple::Item2]
    }
}

impl EnumerateStr for Couple {
    fn spec_as_str(&self) -> Seq<char> {
        unreachable!("a name for verification only")
    }

    fn as_str(&self) -> &'static str {
        match self {
            Couple::Item1 => "Item1",
            Couple::Item2 => "Item2",
        }
    }
}

#[derive(Clone, Debug)]
enum Triple {
    Item1,
    Item2,
    Item3,
}

impl Enumerate for Triple {
    fn spec_enumerate() -> Seq<Self> {
        unreachable!("a name for verification only")
    }

    fn enumerate() -> Vec<Self> {
        vec![Triple::Item1, Triple::Item2, Triple::Item3]
    }
}

#[derive(Clone, Debug)]
enum Rename {
    Item1,
    Item2,
}

impl Enumerate for Rename {
    fn spec_enumerate() -> Seq<Self> {
        unreachable!("a name for verification only")
    }

    fn enumerate() -> Vec<Self> {
        vec![Rename::Item1, Rename::Item2]
    }
}

impl EnumerateStr for Rename {
    fn spec_as_str(&self) -> Seq<char> {
        unreachable!("a name for verification only")
    }

    fn as_str(&self) -> &'static str {
        match self {
            Rename::Item1 => "The first item...",
            Rename::Item2 => "The second item...",
        }
    }
}

#[derive(Clone, Debug)]
enum RenameAll {
    Item1,
    Item2,
}

impl Enumerate for RenameAll {
    fn spec_enumerate() -> Seq<Self> {
        unreachable!("a name for verification only")
    }

    fn enumerate() -> Vec<Self> {
        vec![RenameAll::Item1, RenameAll::Item2]
    }
}

impl EnumerateStr for RenameAll {
    fn spec_as_str(&self) -> Seq<char> {
        unreachable!("a name for verification only")
    }

    fn as_str(&self) -> &'static str {
        match self {
            RenameAll::Item1 => "item1",
            RenameAll::Item2 => "item2",
        }
    }
}

#[derive(Clone, Debug)]
enum RenameMix {
    Item1,
    Item2,
}

impl Enumerate for RenameMix {
    fn spec_enumerate() -> Seq<Self> {
        unreachable!("a name for verification only")
    }

    fn enumerate() -> Vec<Self> {
        vec![RenameMix::Item1, RenameMix::Item2]
    }
}

impl EnumerateStr for RenameMix {
    fn spec_as_str(&self) -> Seq<char> {
        unreachable!("a name for verification only")
    }

    fn as_str(&self) -> &'static str {
        match self {
            RenameMix::Item1 => "ITEM1",
            RenameMix::Item2 => "The second item...",
        }
    }
}

#[test]
fn enumerate() {
    assert!(matches!(Empty::enumerate()[..], []));
    assert!(matches!(Single::enumerate()[..], [Single::Item1]));
    assert!(matches!(Couple::enumerate()[..], [Couple::Item1, Couple::Item2]));
    assert!(matches!(
        Triple::enumerate()[..],
        [Triple::Item1, Triple::Item2, Triple::Item3]
    ));
}

#[test]
fn enumerate_str() {
    assert!(matches!(variant_from_str::<Empty>("Gibberish"), Err(NoSuchVariantError)));
    assert!(matches!(variant_from_str::<Empty>(""), Err(NoSuchVariantError)));

    assert_eq!(Single::Item1.as_str(), "Item1");
    assert!(matches!(variant_from_str::<Single>("Item1"), Ok(Single::Item1)));
    assert!(matches!(variant_from_str::<Single>("Gibberish"), Err(NoSuchVariantError)));
    assert!(matches!(variant_from_str::<Single>(""), Err(NoSuchVariantError)));

    assert_eq!(Couple::Item1.as_str(), "Item1");
    assert_eq!(Couple::Item2.as_str(), "Item2");
    assert!(matches!(variant_from_str::<Couple>("Item1"), Ok(Couple::Item1)));
    assert!(matches!(variant_from_str::<Couple>("Item2"), Ok(Couple::Item2)));
    assert!(matches!(variant_from_str::<Couple>("item1"), Err(NoSuchVariantError)));
    assert!(matches!(variant_from_str::<Couple>("item2"), Err(NoSuchVariantError)));
    assert!(matches!(variant_from_str::<Couple>("ITEM1"), Err(NoSuchVariantError)));
    assert!(matches!(variant_from_str::<Couple>("ITEM2"), Err(NoSuchVariantError)));
    assert!(matches!(variant_from_str::<Couple>("Gibberish"), Err(NoSuchVariantError)));
    assert!(matches!(variant_from_str::<Couple>(""), Err(NoSuchVariantError)));

    assert_eq!(Rename::Item1.as_str(), "The first item...");
    assert_eq!(Rename::Item2.as_str(), "The second item...");
    assert!(matches!(variant_from_str::<Rename>("The first item..."), Ok(Rename::Item1)));
    assert!(matches!(variant_from_str::<Rename>("The second item..."), Ok(Rename::Item2)));
    assert!(matches!(variant_from_str::<Rename>("the first item..."), Err(NoSuchVariantError)));
    assert!(matches!(variant_from_str::<Rename>("the second item..."), Err(NoSuchVariantError)));
    assert!(matches!(variant_from_str::<Rename>("THE FIRST ITEM..."), Err(NoSuchVariantError)));
    assert!(matches!(variant_from_str::<Rename>("THE SECOND ITEM..."), Err(NoSuchVariantError)));
    assert!(matches!(variant_from_str::<Rename>("Gibberish"), Err(NoSuchVariantError)));
    assert!(matches!(variant_from_str::<Rename>(""), Err(NoSuchVariantError)));

    assert_eq!(RenameAll::Item1.as_str(), "item1");
    assert_eq!(RenameAll::Item2.as_str(), "item2");
    assert!(matches!(variant_from_str::<RenameAll>("item1"), Ok(RenameAll::Item1)));
    assert!(matches!(variant_from_str::<RenameAll>("item2"), Ok(RenameAll::Item2)));
    assert!(matches!(variant_from_str::<RenameAll>("Item1"), Err(NoSuchVariantError)));
    assert!(matches!(variant_from_str::<RenameAll>("Item2"), Err(NoSuchVariantError)));
    assert!(matches!(variant_from_str::<RenameAll>("ITEM1"), Err(NoSuchVariantError)));
    assert!(matches!(variant_from_str::<RenameAll>("ITEM2"), Err(NoSuchVariantError)));
    assert!(matches!(variant_from_str::<RenameAll>("Gibberish"), Err(NoSuchVariantError)));
    assert!(matches!(variant_from_str::<RenameAll>(""), Err(NoSuchVariantError)));

    assert_eq!(RenameMix::Item1.as_str(), "ITEM1");
    assert_eq!(RenameMix::Item2.as_str(), "The second item...");
    assert!(matches!(variant_from_str::<RenameMix>("ITEM1"), Ok(RenameMix::Item1)));
    assert!(matches!(variant_from_str::<RenameMix>("The second item..."), Ok(RenameMix::Item2)));
    assert!(matches!(variant_from_str::<RenameMix>("item1"), Err(NoSuchVariantError)));
    assert!(matches!(variant_from_str::<RenameMix>("the second item..."), Err(NoSuchVariantError)));
    assert!(matches!(variant_from_str::<RenameMix>("THE SECOND ITEM..."), Err(NoSuchVariantError)));
    assert!(matches!(variant_from_str::<RenameMix>("Gibberish"), Err(NoSuchVariantError)));
    assert!(matches!(variant_from_str::<RenameMix>(""), Err(NoSuchVariantError)));
}
