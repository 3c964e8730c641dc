use vstd::prelude::*;

verus! {

/// One of the five logged dimensions.
#[derive(Clone, Copy, Debug, PartialEq, Eq, Structural)]
pub enum Category {
    Calories,
    Water,
    Protein,
    Carbs,
    Fat,
}

/// One log request: a category with the amount to add, in thousandths of a unit.
#[derive(Clone, Copy, Debug, PartialEq, Eq, Structural)]
pub enum NutritionType {
    Calories { amount: i64 },
    Water { fl_oz: i64 },
    Protein { grams: i64 },
    Carbs { grams: i64 },
    Fat { grams: i64 },
}

impl NutritionType {
    pub open spec fn spec_category(self) -> Category {
        match self {
            NutritionType::Calories { .. } => Category::Calories,
            NutritionType::Water { .. } => Category::Water,
            NutritionType::Protein { .. } => Category::Protein,
            NutritionType::Carbs { .. } => Category::Carbs,
            NutritionType::Fat { .. } => Category::Fat,
        }
    }

    pub open spec fn spec_amount(self) -> int {
        match self {
            NutritionType::Calories { amount } => amount as int,
            NutritionType::Water { fl_oz } => fl_oz as int,
            NutritionType::Protein { grams } => grams as int,
            NutritionType::Carbs { grams } => grams as int,
            NutritionType::Fat { grams } => grams as int,
        }
    }

    pub fn category(&self) -> (r: Category)
        ensures
            r == self.spec_category(),
    {
        match self {
            NutritionType::Calories { .. } => Category::Calories,
            NutritionType::Water { .. } => Category::Water,
            NutritionType::Protein { .. } => Category::Protein,
            NutritionType::Carbs { .. } => Category::Carbs,
            NutritionType::Fat { .. } => Category::Fat,
        }
    }

    pub fn amount(&self) -> (r: i64)
        ensures
            r as int == self.spec_amount(),
    {
        match self {
            NutritionType::Calories { amount } => *amount,
            NutritionType::Water { fl_oz } => *fl_oz,
            NutritionType::Protein { grams } => *grams,
            NutritionType::Carbs { grams } => *grams,
            NutritionType::Fat { grams } => *grams,
        }
    }
}

/// The totals of one calendar date, keyed by its `YYYY-MM-DD` text.
#[derive(Debug)]
pub struct DailyLog {
    pub date: String,
    pub calories: i64,
    pub water: i64,
    pub protein: i64,
    pub carbs: i64,
    pub fat: i64,
}

/// The mathematical model of a `DailyLog`.
pub struct LogView {
    pub date: Seq<char>,
    pub calories: int,
    pub water: int,
    pub protein: int,
    pub carbs: int,
    pub fat: int,
}

impl LogView {
    pub open spec fn get(self, c: Category) -> int {
        match c {
            Category::Calories => self.calories,
            Category::Water => self.water,
            Category::Protein => self.protein,
            Category::Carbs => self.carbs,
            Category::Fat => self.fat,
        }
    }

    pub open spec fn set(self, c: Category, v: int) -> LogView {
        match c {
            Category::Calories => LogView { calories: v, ..self },
            Category::Water => LogView { water: v, ..self },
            Category::Protein => LogView { protein: v, ..self },
            Category::Carbs => LogView { carbs: v, ..self },
            Category::Fat => LogView { fat: v, ..self },
        }
    }

    /// A record for `date` with every accumulator at zero.
    pub open spec fn zero(date: Seq<char>) -> LogView {
        LogView { date, calories: 0, water: 0, protein: 0, carbs: 0, fat: 0 }
    }
}

impl View for DailyLog {
    type V = LogView;

    open spec fn view(&self) -> LogView {
        LogView {
            date: self.date@,
            calories: self.calories as int,
            water: self.water as int,
            protein: self.protein as int,
            carbs: self.carbs as int,
            fat: self.fat as int,
        }
    }
}

/// The model of a whole collection of records, in stored order.
pub open spec fn logs_view(logs: Seq<DailyLog>) -> Seq<LogView> {
    logs.map_values(|l: DailyLog| l@)
}

impl DailyLog {
    /// A fresh record for `date` with all accumulators at zero.
    pub fn new(date: String) -> (r: DailyLog)
        ensures
            r@ == LogView::zero(date@),
    {
        DailyLog { date, calories: 0, water: 0, protein: 0, carbs: 0, fat: 0 }
    }

    /// The accumulator of category `c`.
    pub fn get(&self, c: Category) -> (r: i64)
        ensures
            r as int == self@.get(c),
    {
        match c {
            Category::Calories => self.calories,
            Category::Water => self.water,
            Category::Protein => self.protein,
            Category::Carbs => self.carbs,
            Category::Fat => self.fat,
        }
    }

    /// Overwrites the accumulator of category `c` with `v`.
    pub fn set(&mut self, c: Category, v: i64)
        ensures
            final(self)@ == old(self)@.set(c, v as int),
    {
        match c {
            Category::Calories => self.calories = v,
            Category::Water => self.water = v,
            Category::Protein => self.protein = v,
            Category::Carbs => self.carbs = v,
            Category::Fat => self.fat = v,
        }
    }
}

} // verus!
