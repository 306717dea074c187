//! What Farmers sells and who is asking, as this crate hands it out.
//!
//! Prices stay with the caller: they are decimal amounts read out of markup,
//! and nothing here computes with them.

use vstd::prelude::*;
use crate::text::{
    chars_of, contains, contains_exec, extend, extend_str, join, join_exec, lowered, opt_str,
    owned, string_of, strs, to_lowercase_str, views,
};

verus! {

/// A product picture.
#[derive(Clone, Debug)]
pub struct Image {
    pub url: String,
    /// `ZOOM`, `L`, `M`, `S`: the storefront's own names for its renditions.
    pub size: Option<String>,
    pub width: Option<u32>,
    pub height: Option<u32>,
    pub primary: bool,
}

/// A category a product sits in.
#[derive(Clone, Debug)]
pub struct CategoryRef {
    pub id: String,
    pub name: String,
}

/// One axis a variant differs on, and its value there.
#[derive(Clone, Debug)]
pub struct VariationValue {
    pub axis: String,
    pub value: String,
}

/// One buyable variant of a master.
#[derive(Clone, Debug)]
pub struct Variant {
    pub sku: String,
    pub name: Option<String>,
    pub values: Vec<VariationValue>,
    pub in_stock: Option<bool>,
    pub available_stock: Option<i64>,
    /// The one the product page opens on.
    pub default: bool,
}

/// `Colour Grey`: one value with its axis.
pub open spec fn value_label(v: VariationValue) -> Seq<char> {
    v.axis@ + " "@ + v.value@
}

/// Each value with its axis.
pub open spec fn value_labels(vs: Seq<VariationValue>) -> Seq<Seq<char>> {
    vs.map_values(|v: VariationValue| value_label(v))
}

impl Variant {
    /// `Colour Grey, Size L-XL` -- what tells one variant from another.
    pub fn label(&self) -> (r: String)
        ensures
            r@ == join(value_labels(self.values@), ", "@),
    {
        let mut parts: Vec<Vec<char>> = Vec::new();
        let mut i: usize = 0;
        while i < self.values.len()
            invariant
                i <= self.values.len(),
                views(parts@) == value_labels(self.values@).take(i as int),
            decreases self.values.len() - i,
        {
            let mut p = chars_of(self.values[i].axis.as_str());
            extend_str(&mut p, " ");
            extend_str(&mut p, self.values[i].value.as_str());
            let ghost before = parts@;
            parts.push(p);
            proof {
                assert(views(parts@) =~= views(before).push(p@));
                assert(value_labels(self.values@).take(i + 1) =~= value_labels(self.values@).take(
                    i as int,
                ).push(value_label(self.values@[i as int])));
            }
            i += 1;
        }
        assert(value_labels(self.values@).take(self.values.len() as int) =~= value_labels(
            self.values@,
        ));
        let sep = chars_of(", ");
        let line = join_exec(&parts, &sep);
        string_of(&line)
    }
}

/// An amount as the backend printed it, and what it is denominated in.
#[derive(Clone, Debug)]
pub struct Amount {
    /// The number as it was sent, `89.99`.
    pub value: String,
    pub currency: String,
}

/// A product, whether a master or one of its variants.
///
/// Amounts keep the text the backend sent, and so does the rating: `0.0`
/// is how the backend says that nobody has rated it.
#[derive(Clone, Debug)]
pub struct Product {
    pub sku: String,
    pub name: Option<String>,
    pub brand: Option<String>,
    pub short_description: Option<String>,
    pub long_description: Option<String>,
    /// The ticket price.
    pub list_price: Option<Amount>,
    /// What it actually sells for; the same as the ticket price for
    /// anything not reduced.
    pub sale_price: Option<Amount>,
    /// A master's range, when its variants are not all one price.
    pub min_price: Option<Amount>,
    pub max_price: Option<Amount>,
    pub in_stock: Option<bool>,
    /// Units on hand for delivery, nationwide.
    pub available_stock: Option<i64>,
    /// Set on a variant, naming the master it belongs to.
    pub master_sku: Option<String>,
    /// Whether this is the master rather than something buyable.
    pub master: bool,
    pub images: Vec<Image>,
    /// Root first, the product's own category last.
    pub category_path: Vec<CategoryRef>,
    /// On a variant: which size and colour this one is. On a master: every
    /// value any of its variants takes.
    pub variation_values: Vec<VariationValue>,
    /// Promotion titles, as the storefront words them.
    pub promotions: Vec<String>,
    /// The average rating, as sent.
    pub rating: Option<String>,
    pub review_count: Option<i64>,
    /// Working days to dispatch, as a range.
    pub ships_in: Option<(i64, i64)>,
}

impl Default for Product {
    /// A product with nothing known of it.
    fn default() -> (p: Product)
        ensures
            p.sku@.len() == 0,
            p.name is None,
            p.brand is None,
            p.short_description is None,
            p.long_description is None,
            p.list_price is None,
            p.sale_price is None,
            p.min_price is None,
            p.max_price is None,
            p.in_stock is None,
            p.available_stock is None,
            p.master_sku is None,
            !p.master,
            p.images@.len() == 0,
            p.category_path@.len() == 0,
            p.variation_values@.len() == 0,
            p.promotions@.len() == 0,
            p.rating is None,
            p.review_count is None,
            p.ships_in is None,
    {
        Product {
            sku: String::new(),
            name: None,
            brand: None,
            short_description: None,
            long_description: None,
            list_price: None,
            sale_price: None,
            min_price: None,
            max_price: None,
            in_stock: None,
            available_stock: None,
            master_sku: None,
            master: false,
            images: Vec::new(),
            category_path: Vec::new(),
            variation_values: Vec::new(),
            promotions: Vec::new(),
            rating: None,
            review_count: None,
            ships_in: None,
        }
    }
}

impl Product {
    /// What it sells for, falling back to the ticket price.
    pub fn price(&self) -> (r: Option<&Amount>)
        ensures
            match self.sale_price {
                Some(s) => r == Some(&s),
                None => match self.list_price {
                    Some(l) => r == Some(&l),
                    None => r is None,
                },
            },
    {
        match &self.sale_price {
            Some(s) => Some(s),
            None => match &self.list_price {
                Some(l) => Some(l),
                None => None,
            },
        }
    }

    /// The largest picture there is: the zoom rendition, else the primary
    /// one, else the first.
    pub fn image(&self) -> (r: Option<&Image>)
        ensures
            match r {
                Some(i) => 0 <= largest_index(self.images@) < self.images@.len() && *i
                    == self.images@[largest_index(self.images@)],
                None => largest_index(self.images@) < 0,
            },
    {
        largest_image(&self.images)
    }

    /// The category path as `Men > Sleepwear, Robes & Slippers > Robes`.
    pub fn breadcrumb(&self) -> (r: String)
        ensures
            r@ == join(self.category_path@.map_values(|c: CategoryRef| c.name@), " > "@),
    {
        breadcrumb(&self.category_path)
    }
}

/// A node of the category tree.
#[derive(Debug)]
pub struct Category {
    pub id: String,
    pub name: String,
    pub description: Option<String>,
    /// The path the website serves it under, `men/sleepwear-robes-slippers`.
    pub path: Option<String>,
    /// How many products sit below it, which the API counts only on the
    /// branches that have children.
    pub product_count: Option<i64>,
    pub has_products: bool,
    pub children: Vec<Category>,
}

/// A category and everything below it, depth first, each with the names
/// above it.
pub open spec fn flat(c: Category, above: Seq<Seq<char>>) -> Seq<(Seq<Seq<char>>, Category)>
    decreases c, 1nat,
{
    seq![(above, c)] + flat_list(c.children@, above.push(c.name@))
}

/// Each of a list of siblings flattened in turn, under the same names.
pub open spec fn flat_list(cs: Seq<Category>, above: Seq<Seq<char>>) -> Seq<
    (Seq<Seq<char>>, Category),
>
    decreases cs, 0nat,
{
    if cs.len() == 0 {
        Seq::empty()
    } else {
        flat_list(cs.subrange(0, cs.len() - 1), above) + flat(cs[cs.len() - 1], above)
    }
}

/// The entries of a flattening, by the characters of their paths.
pub open spec fn flat_view(v: Seq<(Vec<String>, &Category)>) -> Seq<(Seq<Seq<char>>, Category)> {
    v.map_values(|e: (Vec<String>, &Category)| (strs(e.0@), *e.1))
}

/// A copy of a list of strings.
fn copy_strings(v: &Vec<String>) -> (r: Vec<String>)
    ensures
        strs(r@) == strs(v@),
{
    let mut r: Vec<String> = Vec::new();
    let mut i: usize = 0;
    while i < v.len()
        invariant
            i <= v.len(),
            strs(r@) == strs(v@).take(i as int),
        decreases v.len() - i,
    {
        let s = v[i].clone();
        let ghost before = r@;
        r.push(s);
        proof {
            assert(strs(r@) =~= strs(before).push(s@));
            assert(strs(v@).take(i + 1) =~= strs(v@).take(i as int).push(v@[i as int]@));
        }
        i += 1;
    }
    assert(strs(v@).take(v.len() as int) =~= strs(v@));
    r
}

impl Category {
    /// Every category at or below this one, depth first, each with the names
    /// above it.
    pub fn flatten(&self) -> (r: Vec<(Vec<String>, &Category)>)
        ensures
            flat_view(r@) == flat(*self, Seq::empty()),
    {
        let mut out: Vec<(Vec<String>, &Category)> = Vec::new();
        let mut above: Vec<String> = Vec::new();
        assert(strs(above@) =~= Seq::<Seq<char>>::empty());
        self.walk(&mut above, &mut out);
        assert(flat_view(out@) =~= flat_view(Seq::empty()) + flat(*self, Seq::empty()));
        out
    }

    fn walk<'a>(&'a self, above: &mut Vec<String>, out: &mut Vec<(Vec<String>, &'a Category)>)
        ensures
            strs(final(above)@) == strs(old(above)@),
            flat_view(final(out)@) == flat_view(old(out)@) + flat(*self, strs(old(above)@)),
        decreases self,
    {
        let ghost names = strs(above@);
        let ghost start = flat_view(out@);
        let path = copy_strings(above);
        out.push((path, self));
        assert(flat_view(out@) =~= start + seq![(names, *self)]);
        let name = self.name.clone();
        above.push(name);
        let ghost below = strs(above@);
        assert(below =~= names.push(self.name@));
        let mut i: usize = 0;
        assert(self.children@.subrange(0, 0) =~= Seq::<Category>::empty());
        while i < self.children.len()
            invariant
                i <= self.children.len(),
                strs(above@) == below,
                below == names.push(self.name@),
                flat_view(out@) == start + seq![(names, *self)] + flat_list(
                    self.children@.subrange(0, i as int),
                    below,
                ),
            decreases self.children.len() - i,
        {
            proof {
                let cs = self.children@.subrange(0, i + 1);
                assert(cs.subrange(0, cs.len() - 1) =~= self.children@.subrange(0, i as int));
                assert(cs[cs.len() - 1] == self.children@[i as int]);
            }
            let ghost before = flat_view(out@);
            self.children[i].walk(above, out);
            assert(flat_view(out@) =~= start + seq![(names, *self)] + flat_list(
                self.children@.subrange(0, i + 1),
                below,
            ));
            i += 1;
        }
        assert(self.children@.subrange(0, self.children.len() as int) =~= self.children@);
        let ghost pre = above@;
        let _ = above.pop();
        proof {
            assert(above@ =~= pre.drop_last());
            assert(strs(pre).drop_last() =~= names);
            assert(strs(above@) =~= strs(pre).drop_last());
        }
        assert(flat_view(out@) =~= start + flat(*self, names));
    }
}

impl Default for Category {
    /// A nameless leaf with no id.
    fn default() -> (c: Category)
        ensures
            c.id@.len() == 0,
            c.name@.len() == 0,
            c.description is None,
            c.path is None,
            c.product_count is None,
            !c.has_products,
            c.children@.len() == 0,
    {
        Category {
            id: String::new(),
            name: String::new(),
            description: None,
            path: None,
            product_count: None,
            has_products: false,
            children: Vec::new(),
        }
    }
}

/// One product as the search index describes it. The index carries no price
/// at all: join to the product by SKU for money.
#[derive(Clone, Debug)]
pub struct Hit {
    /// The master code. Not buyable on its own -- see `variants`.
    pub sku: String,
    pub name: String,
    pub brand: Option<String>,
    /// The website's path for it.
    pub url: Option<String>,
    pub image: Option<String>,
    /// `In stock`, `Out of stock`, in the index's own words.
    pub stock_status: Option<String>,
    /// The buyable variant codes.
    pub variants: Vec<String>,
    /// The category ids it sits under.
    pub categories: Vec<String>,
}

/// A way a listing can be narrowed.
#[derive(Clone, Debug)]
pub struct Facet {
    /// What to send back in a filter.
    pub name: String,
    /// What the site shows.
    pub display_name: String,
    pub options: Vec<FacetOption>,
}

#[derive(Clone, Debug)]
pub struct FacetOption {
    pub value: String,
    pub display_name: String,
    pub count: i64,
}

/// One page of search or browse results.
#[derive(Clone, Debug)]
pub struct Listing {
    pub hits: Vec<Hit>,
    pub total: i64,
    /// Zero-based.
    pub page: u64,
    pub facets: Vec<Facet>,
    /// Where the index would send someone instead, for a term it knows.
    pub redirect: Option<String>,
}

/// What the site would suggest as someone types.
#[derive(Clone, Debug)]
pub struct Suggestion {
    pub value: String,
    /// `Search Suggestions`, `Products`, and so on.
    pub section: String,
}

/// Who the storefront thinks is asking.
#[derive(Clone, Debug, PartialEq, Eq)]
pub struct Account {
    pub signed_in: bool,
    pub email: Option<String>,
    pub first_name: Option<String>,
    pub last_name: Option<String>,
}

/// A name from its halves: both with a space between, or whichever there is.
pub open spec fn full_name(first: Option<Seq<char>>, last: Option<Seq<char>>) -> Option<Seq<char>> {
    match (first, last) {
        (Some(f), Some(l)) => Some(f + " "@ + l),
        (Some(one), None) => Some(one),
        (None, Some(one)) => Some(one),
        (None, None) => None,
    }
}

impl Account {
    /// The name to greet someone by. Half a name is still one.
    pub fn name(&self) -> (r: Option<String>)
        ensures
            opt_str(r) == full_name(opt_str(self.first_name), opt_str(self.last_name)),
    {
        match (&self.first_name, &self.last_name) {
            (Some(first), Some(last)) => {
                let mut v = chars_of(first.as_str());
                extend_str(&mut v, " ");
                extend_str(&mut v, last.as_str());
                Some(string_of(&v))
            },
            (Some(one), None) => Some(owned(one.as_str())),
            (None, Some(one)) => Some(owned(one.as_str())),
            (None, None) => None,
        }
    }
}

impl Default for Account {
    /// Nobody signed in, and nothing known.
    fn default() -> (a: Account)
        ensures
            !a.signed_in,
            a.email is None,
            a.first_name is None,
            a.last_name is None,
    {
        Account { signed_in: false, email: None, first_name: None, last_name: None }
    }
}


/// A Farmers store.
#[derive(Clone, Debug)]
pub struct Store {
    pub name: String,
    pub address: Option<String>,
    pub phone: Option<String>,
    /// Day and opening times, in the order the page lists them.
    pub hours: Vec<(String, String)>,
}

/// Whether one store has one product.
#[derive(Clone, Debug)]
pub struct StoreStock {
    pub store: Store,
    /// `In Stock` / `Not In Stock`, in the storefront's own words, because it
    /// quotes no number.
    pub status: String,
}

impl StoreStock {
    /// Whether the store has it: the negative is the one worth matching, as
    /// the positive has appeared as both `In Stock` and `In Stock - Limited`.
    pub fn available(&self) -> (r: bool)
        ensures
            r == !contains(lowered(self.status@), "not in stock"@),
    {
        let lower = to_lowercase_str(self.status.as_str());
        let cs = chars_of(lower.as_str());
        let needle = chars_of("not in stock");
        !contains_exec(&cs, &needle)
    }
}


/// One line of the basket.
#[derive(Clone, Debug)]
pub struct CartLine {
    /// The product line item id, which every change to this line is
    /// addressed by. Opaque, and not the SKU.
    pub id: String,
    pub sku: Option<String>,
    pub name: Option<String>,
    pub url: Option<String>,
    pub quantity: Option<i64>,
    /// Per unit, after any discount, as the page quotes it.
    pub unit_price: Option<String>,
    /// Per unit, before it, as the page quotes it.
    pub list_price: Option<String>,
    /// The line's own total, as the page quotes it.
    pub total: Option<String>,
    /// Which size and colour this line is, as the basket labels them.
    pub options: Vec<VariationValue>,
}

/// A line's options by their characters.
pub open spec fn option_views(v: Seq<VariationValue>) -> Seq<(Seq<char>, Seq<char>)> {
    v.map_values(|o: VariationValue| (o.axis@, o.value@))
}

/// How a line is labelled by its options: `Colour Grey, Size L-XL`.
pub open spec fn label_of(options: Seq<(Seq<char>, Seq<char>)>) -> Seq<char> {
    join(options.map_values(|o: (Seq<char>, Seq<char>)| o.0 + " "@ + o.1), ", "@)
}

impl CartLine {
    /// `Colour Grey, Size L-XL`, or empty for something with no variants.
    pub fn label(&self) -> (r: String)
        ensures
            r@ == label_of(option_views(self.options@)),
    {
        let mut parts: Vec<Vec<char>> = Vec::new();
        let mut i: usize = 0;
        while i < self.options.len()
            invariant
                i <= self.options.len(),
                views(parts@) == option_views(self.options@).take(i as int).map_values(
                    |o: (Seq<char>, Seq<char>)| o.0 + " "@ + o.1,
                ),
            decreases self.options.len() - i,
        {
            let mut t = chars_of(self.options[i].axis.as_str());
            extend_str(&mut t, " ");
            extend_str(&mut t, self.options[i].value.as_str());
            let ghost before = parts@;
            parts.push(t);
            proof {
                let ov = option_views(self.options@);
                assert(ov[i as int] == (self.options@[i as int].axis@, self.options@[i as int].value@));
                assert(views(parts@) =~= views(before).push(t@));
                assert(ov.take(i + 1) =~= ov.take(i as int).push(ov[i as int]));
                assert(views(parts@) =~= ov.take(i + 1).map_values(
                    |o: (Seq<char>, Seq<char>)| o.0 + " "@ + o.1,
                ));
            }
            i += 1;
        }
        assert(option_views(self.options@).take(self.options.len() as int) =~= option_views(
            self.options@,
        ));
        let sep = chars_of(", ");
        let j = join_exec(&parts, &sep);
        string_of(&j)
    }
}

impl Default for CartLine {
    /// A line with no id and nothing known.
    fn default() -> (l: CartLine)
        ensures
            l.id@.len() == 0,
            l.sku is None,
            l.name is None,
            l.url is None,
            l.quantity is None,
            l.unit_price is None,
            l.list_price is None,
            l.total is None,
            l.options@.len() == 0,
    {
        CartLine {
            id: String::new(),
            sku: None,
            name: None,
            url: None,
            quantity: None,
            unit_price: None,
            list_price: None,
            total: None,
            options: Vec::new(),
        }
    }
}

/// The basket.
#[derive(Clone, Debug)]
pub struct Cart {
    /// The basket's own id.
    pub id: Option<String>,
    pub currency: Option<String>,
    /// What the header shows, which counts units and not lines.
    pub count: Option<i64>,
    /// The amounts, as the page quotes them.
    pub subtotal: Option<String>,
    /// After discounts: the number the checkout carries forward.
    pub total: Option<String>,
    pub grand_total: Option<String>,
    pub lines: Vec<CartLine>,
}

/// The units across some lines: each line's quantity where it has one.
pub open spec fn units_of(lines: Seq<CartLine>) -> int
    decreases lines.len(),
{
    if lines.len() == 0 {
        0
    } else {
        units_of(lines.drop_last()) + match lines.last().quantity {
            Some(q) => q as int,
            None => 0,
        }
    }
}

/// Whether every running total of the units fits in an `i64`.
pub open spec fn units_fit(lines: Seq<CartLine>) -> bool {
    forall|k: int| 0 <= k <= lines.len() ==> i64::MIN <= #[trigger] units_of(lines.take(k)) <= i64::MAX
}

/// The position of the first line with an id, or -1.
pub open spec fn line_index(lines: Seq<CartLine>, id: Seq<char>) -> int
    decreases lines.len(),
{
    if lines.len() == 0 {
        -1
    } else {
        let k = line_index(lines.drop_last(), id);
        if k >= 0 {
            k
        } else if lines.last().id@ == id {
            lines.len() - 1
        } else {
            -1
        }
    }
}

/// The first line's position is -1 or the first line carrying the id.
pub proof fn lemma_line_index(lines: Seq<CartLine>, id: Seq<char>)
    ensures
        -1 <= line_index(lines, id) < lines.len(),
        line_index(lines, id) >= 0 ==> lines[line_index(lines, id)].id@ == id,
        forall|j: int|
            0 <= j < lines.len() && (line_index(lines, id) < 0 || j < line_index(lines, id))
                ==> lines[j].id@ != id,
    decreases lines.len(),
{
    if lines.len() > 0 {
        let init = lines.drop_last();
        lemma_line_index(init, id);
        assert forall|j: int|
            0 <= j < lines.len() && (line_index(lines, id) < 0 || j < line_index(lines, id)) implies lines[j].id@
            != id by {
            if j < lines.len() - 1 {
                assert(init[j] == lines[j]);
            }
        }
    }
}

impl Cart {
    pub fn is_empty(&self) -> (r: bool)
        ensures
            r == (self.lines@.len() == 0),
    {
        self.lines.len() == 0
    }

    /// Units across every line, from the lines themselves: the header's
    /// count is a claim, and where the two disagree the rows are the
    /// evidence.
    pub fn units(&self) -> (r: i64)
        requires
            units_fit(self.lines@),
        ensures
            r == units_of(self.lines@),
    {
        let mut sum: i64 = 0;
        let mut i: usize = 0;
        assert(self.lines@.take(0) =~= Seq::<CartLine>::empty());
        while i < self.lines.len()
            invariant
                i <= self.lines.len(),
                units_fit(self.lines@),
                sum == units_of(self.lines@.take(i as int)),
            decreases self.lines.len() - i,
        {
            assert(self.lines@.take(i + 1).drop_last() =~= self.lines@.take(i as int));
            assert(self.lines@.take(i + 1).last() == self.lines@[i as int]);
            assert(i64::MIN <= units_of(self.lines@.take(i + 1)) <= i64::MAX);
            match self.lines[i].quantity {
                Some(q) => sum = sum + q,
                None => {},
            }
            i += 1;
        }
        assert(self.lines@.take(self.lines.len() as int) =~= self.lines@);
        sum
    }

    /// A line by the id the remove and update calls take.
    pub fn line(&self, id: &str) -> (r: Option<&CartLine>)
        ensures
            match r {
                Some(l) => line_index(self.lines@, id@) >= 0 && *l == self.lines@[line_index(
                    self.lines@,
                    id@,
                )],
                None => line_index(self.lines@, id@) < 0,
            },
    {
        proof {
            lemma_line_index(self.lines@, id@);
        }
        let mut i: usize = 0;
        while i < self.lines.len()
            invariant
                i <= self.lines.len(),
                -1 <= line_index(self.lines@, id@) < self.lines@.len(),
                line_index(self.lines@, id@) >= 0 ==> self.lines@[line_index(self.lines@, id@)].id@
                    == id@,
                forall|j: int|
                    0 <= j < self.lines@.len() && (line_index(self.lines@, id@) < 0 || j
                        < line_index(self.lines@, id@)) ==> self.lines@[j].id@ != id@,
                forall|j: int| 0 <= j < i ==> self.lines@[j].id@ != id@,
            decreases self.lines.len() - i,
        {
            if crate::text::eq_str(self.lines[i].id.as_str(), id) {
                let ghost k = line_index(self.lines@, id@);
                assert(k == i) by {
                    if k < 0 || k > i {
                        assert(self.lines@[i as int].id@ != id@);
                    }
                    if 0 <= k < i {
                        assert(self.lines@[k].id@ != id@);
                    }
                }
                return Some(&self.lines[i]);
            }
            i += 1;
        }
        None
    }

    /// A line by its position as a listing shows it, counting from one: the
    /// ids are opaque, and nobody is typing one.
    pub fn nth(&self, item: usize) -> (r: Option<&CartLine>)
        ensures
            match r {
                Some(l) => 1 <= item <= self.lines@.len() && *l == self.lines@[item - 1],
                None => item == 0 || item > self.lines@.len(),
            },
    {
        if item == 0 || item > self.lines.len() {
            None
        } else {
            Some(&self.lines[item - 1])
        }
    }
}

impl Default for Cart {
    /// A basket nothing is known of.
    fn default() -> (c: Cart)
        ensures
            c.id is None,
            c.currency is None,
            c.count is None,
            c.subtotal is None,
            c.total is None,
            c.grand_total is None,
            c.lines@.len() == 0,
    {
        Cart {
            id: None,
            currency: None,
            count: None,
            subtotal: None,
            total: None,
            grand_total: None,
            lines: Vec::new(),
        }
    }
}


/// A saved list. Farmers keeps several per account, and one of them is the
/// preferred one that a bare add writes to.
#[derive(Clone, Debug)]
pub struct Wishlist {
    pub id: Option<String>,
    pub name: String,
    /// Where a plain add goes.
    pub preferred: bool,
    /// Shareable by link.
    pub public: bool,
    pub items: Vec<WishlistItem>,
}

/// One saved product.
#[derive(Clone, Debug)]
pub struct WishlistItem {
    pub sku: Option<String>,
    pub name: Option<String>,
    pub url: Option<String>,
    /// As the page quotes it.
    pub price: Option<String>,
}

/// One past order, as the account's order history lists it.
#[derive(Clone, Debug)]
pub struct Order {
    pub number: String,
    /// As the page prints it: the format is the storefront's to change, and
    /// a wrong date is worse than the text.
    pub placed: Option<String>,
    pub status: Option<String>,
    /// As the page quotes it.
    pub total: Option<String>,
    /// The page for this order, where the history links to one.
    pub url: Option<String>,
}


/// The position of the first picture a test picks, or -1.
pub open spec fn first_image(images: Seq<Image>, p: spec_fn(Image) -> bool) -> int
    decreases images.len(),
{
    if images.len() == 0 {
        -1
    } else {
        let k = first_image(images.drop_last(), p);
        if k >= 0 {
            k
        } else if p(images.last()) {
            images.len() - 1
        } else {
            -1
        }
    }
}

/// The first picture's position is -1 or the first one the test picks.
pub proof fn lemma_first_image(images: Seq<Image>, p: spec_fn(Image) -> bool)
    ensures
        -1 <= first_image(images, p) < images.len(),
        first_image(images, p) >= 0 ==> p(images[first_image(images, p)]),
        forall|j: int|
            0 <= j < images.len() && (first_image(images, p) < 0 || j < first_image(images, p))
                ==> !p(images[j]),
    decreases images.len(),
{
    if images.len() > 0 {
        let init = images.drop_last();
        lemma_first_image(init, p);
        assert forall|j: int|
            0 <= j < images.len() && (first_image(images, p) < 0 || j < first_image(images, p)) implies !p(
            images[j],
        ) by {
            if j < images.len() - 1 {
                assert(init[j] == images[j]);
            }
        }
    }
}

/// Whether a picture is the zoom rendition.
pub open spec fn is_zoom(i: Image) -> bool {
    opt_str(i.size) == Some("ZOOM"@)
}

/// Whether a picture is the primary one.
pub open spec fn is_primary(i: Image) -> bool {
    i.primary
}

/// Which picture is the largest there is: the zoom rendition, else the
/// primary one, else the first; -1 where there is none.
pub open spec fn largest_index(images: Seq<Image>) -> int {
    let z = first_image(images, |i: Image| is_zoom(i));
    let p = first_image(images, |i: Image| is_primary(i));
    if z >= 0 {
        z
    } else if p >= 0 {
        p
    } else if images.len() > 0 {
        0
    } else {
        -1
    }
}

/// The first picture a test picks.
fn find_image(images: &Vec<Image>, zoom: bool) -> (r: Option<usize>)
    ensures
        match r {
            Some(k) => k == first_image(
                images@,
                if zoom {
                    |i: Image| is_zoom(i)
                } else {
                    |i: Image| is_primary(i)
                },
            ),
            None => first_image(
                images@,
                if zoom {
                    |i: Image| is_zoom(i)
                } else {
                    |i: Image| is_primary(i)
                },
            ) < 0,
        },
{
    let ghost p = if zoom {
        |i: Image| is_zoom(i)
    } else {
        |i: Image| is_primary(i)
    };
    proof {
        lemma_first_image(images@, p);
        reveal_strlit("ZOOM");
    }
    let mut k: usize = 0;
    while k < images.len()
        invariant
            k <= images.len(),
            -1 <= first_image(images@, p) < images@.len(),
            first_image(images@, p) >= 0 ==> p(images@[first_image(images@, p)]),
            forall|j: int|
                0 <= j < images@.len() && (first_image(images@, p) < 0 || j < first_image(images@, p))
                    ==> !p(images@[j]),
            forall|j: int| 0 <= j < k ==> !p(#[trigger] images@[j]),
            p == (if zoom {
                |i: Image| is_zoom(i)
            } else {
                |i: Image| is_primary(i)
            }),
        decreases images.len() - k,
    {
        let hit = if zoom {
            match &images[k].size {
                Some(sz) => crate::text::eq_str(sz.as_str(), "ZOOM"),
                None => false,
            }
        } else {
            images[k].primary
        };
        assert(hit == p(images@[k as int]));
        if hit {
            let ghost f = first_image(images@, p);
            assert(f == k) by {
                if f < 0 || f > k {
                    assert(!p(images@[k as int]));
                }
                if 0 <= f < k {
                    assert(!p(images@[f]));
                }
            }
            return Some(k);
        }
        k += 1;
    }
    None
}

/// The largest picture there is: the zoom rendition, else the primary one,
/// else the first.
pub fn largest_image(images: &Vec<Image>) -> (r: Option<&Image>)
    ensures
        match r {
            Some(i) => 0 <= largest_index(images@) < images@.len() && *i == images@[largest_index(
                images@,
            )],
            None => largest_index(images@) < 0,
        },
{
    proof {
        lemma_first_image(images@, |i: Image| is_zoom(i));
        lemma_first_image(images@, |i: Image| is_primary(i));
    }
    match find_image(images, true) {
        Some(k) => return Some(&images[k]),
        None => {},
    }
    match find_image(images, false) {
        Some(k) => return Some(&images[k]),
        None => {},
    }
    if images.len() > 0 {
        Some(&images[0])
    } else {
        None
    }
}

/// A category path as `Men > Sleepwear, Robes & Slippers > Robes`.
pub fn breadcrumb(path: &Vec<CategoryRef>) -> (r: String)
    ensures
        r@ == join(path@.map_values(|c: CategoryRef| c.name@), " > "@),
{
    let mut names: Vec<Vec<char>> = Vec::new();
    let mut i: usize = 0;
    while i < path.len()
        invariant
            i <= path.len(),
            views(names@) == path@.take(i as int).map_values(|c: CategoryRef| c.name@),
        decreases path.len() - i,
    {
        let n = chars_of(path[i].name.as_str());
        let ghost before = names@;
        names.push(n);
        proof {
            assert(views(names@) =~= views(before).push(n@));
            assert(path@.take(i + 1) =~= path@.take(i as int).push(path@[i as int]));
            assert(views(names@) =~= path@.take(i + 1).map_values(|c: CategoryRef| c.name@));
        }
        i += 1;
    }
    assert(path@.take(path.len() as int) =~= path@);
    let sep = chars_of(" > ");
    let j = join_exec(&names, &sep);
    string_of(&j)
}

} // verus!
