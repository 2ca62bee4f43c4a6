use vstd::prelude::*;

verus! {

/// Offset of the ammunition count (`u32`) in an ammunition item.
pub const OFF_M_AMMO: usize = 0x20;

/// Size of a pointer in the game's ammunition array.
pub const SLOT_SIZE: usize = 8;

/// A pedestrian's ammunition repository: a null-terminated array of pointers to items.
pub struct CAmmoItemRepository;

/// Address of an ammunition repository in the game's memory; the pointer to its array is
/// stored there.
pub struct CAmmoItemRepositoryPtr(pub usize);

/// Why setting an ammunition count failed.
pub enum AmmoError {
    /// The array pointer could not be read.
    ArrayNotFound,
    /// The item pointer could not be read.
    ElementNotFound,
    /// The item pointer was null.
    NullElement,
}

impl AmmoError {
    /// The error's message.
    pub fn message(&self) -> (res: &'static str)
        ensures
            res@ == match self {
                AmmoError::ArrayNotFound => "Array not found"@,
                AmmoError::ElementNotFound => "Array element not found"@,
                AmmoError::NullElement => "Array Element was null pointer"@,
            },
    {
        match self {
            AmmoError::ArrayNotFound => "Array not found",
            AmmoError::ElementNotFound => "Array element not found",
            AmmoError::NullElement => "Array Element was null pointer",
        }
    }
}

/// What the caller has to do next for a count of ammunition types.
pub enum AmmoCountAction {
    /// Read a pointer at this address and hand it to `resume` (`None` when the read fails).
    ReadPointer(usize),
    /// The count is over: the number of item pointers before the first null one (truncated to
    /// `u32`), or `None` when a read failed.
    Done(Option<u32>),
    /// An address computation left the range of `usize`; the count cannot go on.
    Overflow,
}

/// A count of the item pointers before the first null one in a repository's array.
pub struct AmmoTypeCount {
    array: Option<usize>,
    count: usize,
}

/// The address of slot `idx` of the array at `array`, if it is within `usize`.
pub open spec fn slot_address_spec(array: usize, idx: nat) -> Option<usize> {
    if array + idx * SLOT_SIZE <= usize::MAX {
        Some((array + idx * SLOT_SIZE) as usize)
    } else {
        None
    }
}

/// The action that reads slot `idx` of the array at `array`.
pub open spec fn read_slot(array: usize, idx: nat) -> AmmoCountAction {
    match slot_address_spec(array, idx) {
        Some(a) => AmmoCountAction::ReadPointer(a),
        None => AmmoCountAction::Overflow,
    }
}

impl CAmmoItemRepositoryPtr {
    /// The address of slot `idx` of the array at `array`; `None` when it leaves `usize`.
    pub fn slot_address(array: usize, idx: usize) -> (res: Option<usize>)
        ensures
            res == slot_address_spec(array, idx as nat),
    {
        match idx.checked_mul(SLOT_SIZE) {
            None => None,
            Some(off) => array.checked_add(off),
        }
    }

    /// Where the ammunition count of the item at `elem` is stored: an error for a null item,
    /// `None` when the address leaves `usize`.
    pub fn ammo_address(elem: usize) -> (res: Result<Option<usize>, AmmoError>)
        ensures
            elem == 0 ==> res matches Err(AmmoError::NullElement),
            elem != 0 ==> res == Ok::<Option<usize>, AmmoError>(
                if elem + OFF_M_AMMO <= usize::MAX {
                    Some((elem + OFF_M_AMMO) as usize)
                } else {
                    None
                },
            ),
    {
        if elem == 0 {
            Err(AmmoError::NullElement)
        } else {
            Ok(elem.checked_add(OFF_M_AMMO))
        }
    }

    /// Starts counting the ammunition types: first the array pointer is read.
    pub fn get_ammo_type_amount(&self) -> (res: (AmmoTypeCount, AmmoCountAction))
        ensures
            res.0.array() is None,
            res.0.count() == 0,
            res.1 == AmmoCountAction::ReadPointer(self.0),
    {
        (AmmoTypeCount { array: None, count: 0 }, AmmoCountAction::ReadPointer(self.0))
    }
}

impl AmmoTypeCount {
    /// The array pointer, once read.
    pub closed spec fn array(&self) -> Option<usize> {
        self.array
    }

    /// Non-null item pointers seen so far.
    pub closed spec fn count(&self) -> nat {
        self.count as nat
    }

    /// Continues the count with the pointer that its pending `ReadPointer` action read.
    pub fn resume(&mut self, value: Option<usize>) -> (res: AmmoCountAction)
        ensures
            match value {
                None => res == AmmoCountAction::Done(None),
                Some(v) => match old(self).array() {
                    None => {
                        &&& final(self).array() == Some(v)
                        &&& final(self).count() == 0
                        &&& res == read_slot(v, 0)
                    },
                    Some(a) => if v == 0 {
                        res == AmmoCountAction::Done(Some(old(self).count() as u32))
                    } else if old(self).count() + 1 > usize::MAX {
                        res is Overflow
                    } else {
                        &&& final(self).array() == Some(a)
                        &&& final(self).count() == old(self).count() + 1
                        &&& res == read_slot(a, final(self).count())
                    },
                },
            },
    {
        match value {
            None => AmmoCountAction::Done(None),
            Some(v) => match self.array {
                None => {
                    self.array = Some(v);
                    self.count = 0;
                    match CAmmoItemRepositoryPtr::slot_address(v, 0) {
                        Some(p) => AmmoCountAction::ReadPointer(p),
                        None => AmmoCountAction::Overflow,
                    }
                },
                Some(a) => {
                    if v == 0 {
                        AmmoCountAction::Done(Some(self.count as u32))
                    } else if self.count == usize::MAX {
                        AmmoCountAction::Overflow
                    } else {
                        self.count = self.count + 1;
                        match CAmmoItemRepositoryPtr::slot_address(a, self.count) {
                            Some(p) => AmmoCountAction::ReadPointer(p),
                            None => AmmoCountAction::Overflow,
                        }
                    }
                },
            },
        }
    }
}

/// What the caller has to do next to set an ammunition count.
pub enum AmmoSetAction {
    /// Read a pointer at this address and hand it to `resume` (`None` when the read fails).
    ReadPointer(usize),
    /// Write the `u32` count at this address; the count is then set.
    Write(usize, u32),
    /// Setting the count failed.
    Failed(AmmoError),
    /// An address computation left the range of `usize`; setting the count cannot go on.
    Overflow,
}

/// Setting the count of ammunition item `idx` of a repository: read the array pointer, then the
/// item pointer, then write the count into the item.
pub struct AmmoSet {
    idx: usize,
    amount: u32,
    array: Option<usize>,
}

impl AmmoSet {
    /// Index of the item whose count is set.
    pub closed spec fn idx(&self) -> usize {
        self.idx
    }

    /// The count to write.
    pub closed spec fn amount(&self) -> u32 {
        self.amount
    }

    /// The array pointer, once read.
    pub closed spec fn array(&self) -> Option<usize> {
        self.array
    }

    /// Continues with the answer to the pending pointer read (`None` when it failed): the first
    /// answer is the array pointer, the second the item pointer.
    pub fn resume(&mut self, value: Option<usize>) -> (res: AmmoSetAction)
        ensures
            final(self).idx() == old(self).idx(),
            final(self).amount() == old(self).amount(),
            match old(self).array() {
                None => match value {
                    None => res == AmmoSetAction::Failed(AmmoError::ArrayNotFound),
                    Some(a) => {
                        &&& final(self).array() == Some(a)
                        &&& res == match slot_address_spec(a, old(self).idx() as nat) {
                            Some(p) => AmmoSetAction::ReadPointer(p),
                            None => AmmoSetAction::Overflow,
                        }
                    },
                },
                Some(a) => {
                    &&& final(self).array() == Some(a)
                    &&& match value {
                        None => res == AmmoSetAction::Failed(AmmoError::ElementNotFound),
                        Some(elem) => if elem == 0 {
                            res == AmmoSetAction::Failed(AmmoError::NullElement)
                        } else if elem + OFF_M_AMMO > usize::MAX {
                            res is Overflow
                        } else {
                            res == AmmoSetAction::Write((elem + OFF_M_AMMO) as usize, old(self).amount())
                        },
                    }
                },
            },
    {
        match self.array {
            None => match value {
                None => AmmoSetAction::Failed(AmmoError::ArrayNotFound),
                Some(a) => {
                    self.array = Some(a);
                    match CAmmoItemRepositoryPtr::slot_address(a, self.idx) {
                        Some(p) => AmmoSetAction::ReadPointer(p),
                        None => AmmoSetAction::Overflow,
                    }
                },
            },
            Some(_) => match value {
                None => AmmoSetAction::Failed(AmmoError::ElementNotFound),
                Some(elem) => match CAmmoItemRepositoryPtr::ammo_address(elem) {
                    Err(e) => AmmoSetAction::Failed(e),
                    Ok(None) => AmmoSetAction::Overflow,
                    Ok(Some(addr)) => AmmoSetAction::Write(addr, self.amount),
                },
            },
        }
    }
}

impl CAmmoItemRepositoryPtr {
    /// Starts setting the count of ammunition item `idx` to `amount`; the first step reads the
    /// array pointer stored in the repository.
    pub fn set_ammo_amount(&self, idx: usize, amount: u32) -> (res: (AmmoSet, AmmoSetAction))
        ensures
            res.0.idx() == idx,
            res.0.amount() == amount,
            res.0.array() is None,
            res.1 == AmmoSetAction::ReadPointer(self.0),
    {
        (AmmoSet { idx, amount, array: None }, AmmoSetAction::ReadPointer(self.0))
    }
}

} // verus!
