//! Short ways to make the common menu items.

use vstd::prelude::*;
use crate::menu::items::{is_new_item, MenuAction, MenuItem, MenuItemType};
use crate::num::Scalar;

verus! {

/// A button.
pub fn button<T: Scalar>(id: &str, text: &str, action: MenuAction<T>) -> (item: MenuItem<T>)
    ensures
        item.item_type matches MenuItemType::Button { text: shown, action: asked } && shown@ == text@
            && asked == action,
        is_new_item(item, id@, item.item_type),
{
    MenuItem::new(id, MenuItemType::Button { text: text.to_owned(), action })
}

/// An option that is on or off.
pub fn toggle<T: Scalar>(id: &str, text: &str, value: bool, action: MenuAction<T>) -> (item: MenuItem<T>)
    ensures
        item.item_type matches MenuItemType::Toggle { text: shown, value: held, action: asked }
            && shown@ == text@ && held == value && asked == action,
        is_new_item(item, id@, item.item_type),
{
    MenuItem::new(id, MenuItemType::Toggle { text: text.to_owned(), value, action })
}

/// A number between two bounds.
pub fn slider<T: Scalar>(
    id: &str,
    text: &str,
    value: T,
    min: T,
    max: T,
    step: T,
    action: MenuAction<T>,
) -> (item: MenuItem<T>)
    ensures
        item.item_type matches MenuItemType::Slider {
            text: shown,
            value: held,
            min: least,
            max: most,
            step: stride,
            action: asked,
        } && shown@ == text@ && held == value && least == min && most == max && stride == step
            && asked == action,
        is_new_item(item, id@, item.item_type),
{
    MenuItem::new(id, MenuItemType::Slider { text: text.to_owned(), value, min, max, step, action })
}

/// One of several options.
pub fn selector<T: Scalar>(
    id: &str,
    text: &str,
    options: Vec<String>,
    selected: usize,
    action: MenuAction<T>,
) -> (item: MenuItem<T>)
    ensures
        item.item_type matches MenuItemType::Selector {
            text: shown,
            options: offered,
            selected: chosen,
            action: asked,
        } && shown@ == text@ && offered == options && chosen == selected && asked == action,
        is_new_item(item, id@, item.item_type),
{
    MenuItem::new(id, MenuItemType::Selector { text: text.to_owned(), options, selected, action })
}

/// A text that is only shown.
pub fn label<T: Scalar>(id: &str, text: &str) -> (item: MenuItem<T>)
    ensures
        item.item_type matches MenuItemType::Label { text: shown } && shown@ == text@,
        is_new_item(item, id@, item.item_type),
{
    MenuItem::new(id, MenuItemType::Label { text: text.to_owned() })
}

/// An empty space.
pub fn spacer<T: Scalar>(id: &str, height: T) -> (item: MenuItem<T>)
    ensures
        item.item_type == (MenuItemType::Spacer { height }),
        is_new_item(item, id@, item.item_type),
{
    MenuItem::new(id, MenuItemType::Spacer { height })
}

} // verus!
