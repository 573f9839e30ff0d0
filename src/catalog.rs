use vstd::prelude::*;

verus! {

/// A catalog entry: an identifier, display text and one rating per tracked attribute.
pub struct Item {
    pub rating: Vec<i32>,
    pub title: String,
    pub description: String,
    pub id: i32,
}

/// A named attribute with its weight; kept as catalog metadata, not used in scoring.
pub struct Key {
    pub title: String,
    pub weight: i32,
}

/// The catalog: attribute keys and the items compared against each other.
pub struct Similarity {
    pub keys: Vec<Key>,
    pub items: Vec<Item>,
}

/// Why a similarity query failed.
#[derive(Debug, Clone, Copy, PartialEq, Eq, Structural)]
pub enum SimilarityError {
    /// Two rating vectors that were compared differ in length.
    LengthMismatch { expected: usize, found: usize },
    /// No item of the catalog carries the requested identifier.
    NotFound { id: i32 },
}

impl Similarity {
    /// An empty catalog.
    pub fn new() -> (r: Similarity)
        ensures
            r.keys@.len() == 0,
            r.items@.len() == 0,
    {
        Similarity { keys: Vec::new(), items: Vec::new() }
    }

    /// Appends an attribute key.
    pub fn create_key(&mut self, key: Key)
        ensures
            final(self).keys@ == old(self).keys@.push(key),
            final(self).items@ == old(self).items@,
    {
        self.keys.push(key);
    }

    /// Appends an item at the end of the catalog.
    pub fn create_item(&mut self, item: Item)
        ensures
            final(self).items@ == old(self).items@.push(item),
            final(self).keys@ == old(self).keys@,
    {
        self.items.push(item);
    }
}

fn rating_pair(a: i32, b: i32) -> (r: Vec<i32>)
    ensures
        r@ == seq![a, b],
{
    let mut r = Vec::new();
    r.push(a);
    r.push(b);
    r
}

/// A small demonstration catalog: two attribute keys and ten titles rated on them.
pub fn init_test_similarity_engine() -> (r: Similarity)
    ensures
        r.keys@.len() == 2,
        r.keys@[0].weight == 3 && r.keys@[1].weight == 2,
        r.items@.len() == 10,
            r.items@[0].id == 1 && r.items@[0].rating@ == seq![10i32, 4],
            r.items@[1].id == 2 && r.items@[1].rating@ == seq![10i32, 7],
            r.items@[2].id == 3 && r.items@[2].rating@ == seq![8i32, 7],
            r.items@[3].id == 4 && r.items@[3].rating@ == seq![4i32, 10],
            r.items@[4].id == 5 && r.items@[4].rating@ == seq![2i32, 9],
            r.items@[5].id == 6 && r.items@[5].rating@ == seq![8i32, 7],
            r.items@[6].id == 7 && r.items@[6].rating@ == seq![9i32, 2],
            r.items@[7].id == 8 && r.items@[7].rating@ == seq![3i32, 10],
            r.items@[8].id == 9 && r.items@[8].rating@ == seq![9i32, 2],
            r.items@[9].id == 10 && r.items@[9].rating@ == seq![4i32, 10],
{
    let mut engine = Similarity::new();
    engine.create_key(Key { title: "Comedy".to_owned(), weight: 3 });
    engine.create_key(Key { title: "Action".to_owned(), weight: 2 });
    engine.create_item(
        Item {
            title: "Brooklyn 99".to_owned(),
            rating: rating_pair(10, 4),
            description: "Its a show...".to_owned(),
            id: 1,
        },
    );
    engine.create_item(
        Item {
            title: "Rush Hour 2".to_owned(),
            rating: rating_pair(10, 7),
            description: "Its a movie...".to_owned(),
            id: 2,
        },
    );
    engine.create_item(
        Item {
            title: "Rush Hour 3".to_owned(),
            rating: rating_pair(8, 7),
            description: "Its a  nother movie...".to_owned(),
            id: 3,
        },
    );
    engine.create_item(
        Item {
            title: "my custom action movie".to_owned(),
            rating: rating_pair(4, 10),
            description: "Its a action movie...".to_owned(),
            id: 4,
        },
    );
    engine.create_item(
        Item {
            title: "John Wick".to_owned(),
            rating: rating_pair(2, 9),
            description: "Its another movie...".to_owned(),
            id: 5,
        },
    );
    engine.create_item(
        Item {
            title: "Central Intelligence".to_owned(),
            rating: rating_pair(8, 7),
            description: "movi".to_owned(),
            id: 6,
        },
    );
    engine.create_item(
        Item {
            title: "The Hangover".to_owned(),
            rating: rating_pair(9, 2),
            description: "It's a comedy...".to_owned(),
            id: 7,
        },
    );
    engine.create_item(
        Item {
            title: "Die Hard".to_owned(),
            rating: rating_pair(3, 10),
            description: "It's an action movie...".to_owned(),
            id: 8,
        },
    );
    engine.create_item(
        Item {
            title: "Forrest Gump".to_owned(),
            rating: rating_pair(9, 2),
            description: "A classic...".to_owned(),
            id: 9,
        },
    );
    engine.create_item(
        Item {
            title: "The Matrix".to_owned(),
            rating: rating_pair(4, 10),
            description: "Sci-fi action...".to_owned(),
            id: 10,
        },
    );
    engine
}

} // verus!
