//! The texts themselves: key, Russian, English.

use vstd::prelude::*;

verus! {

/// Every text, under its key, in each language.
pub const BUNDLE: [(&'static str, &'static str, &'static str); 396] = [
    (
        "python.console.exit",
        "код возврата:",
        "exit code:",
    ),
    (
        "control.permission.followup",
        "Продолжай: следующее сообщение уйдёт пользователю отдельно.",
        "Go on: the next message goes to the user separately.",
    ),
    (
        "control.permission.rewrite",
        "Перепиши ответ: новый текст заменит текущий.",
        "Rewrite the reply: the new text takes the place of the current one.",
    ),
    (
        "python.console.empty",
        "(пустой вывод, успех)",
        "(empty output, success)",
    ),
    (
        "calc.err.arity_one",
        "функция {name} ожидает 1 аргумент, получено {n}",
        "function {name} takes 1 argument, got {n}",
    ),
    (
        "calc.err.arity_two",
        "функция {name} ожидает 2 аргумента, получено {n}",
        "function {name} takes 2 arguments, got {n}",
    ),
    (
        "calc.err.bad_number",
        "некорректное число: {s}",
        "not a number: {s}",
    ),
    (
        "calc.err.empty",
        "пустое выражение",
        "the expression is empty",
    ),
    (
        "calc.err.expected",
        "ожидался {want}, получено {found}",
        "expected {want}, found {found}",
    ),
    (
        "calc.err.extra_tokens",
        "лишние символы в конце выражения",
        "the expression goes on after its end",
    ),
    (
        "calc.err.needs_args",
        "функция {name} требует хотя бы один аргумент",
        "function {name} needs an argument",
    ),
    (
        "calc.err.unexpected_token",
        "неожиданный токен: {token}",
        "unexpected token: {token}",
    ),
    (
        "calc.err.unknown_char",
        "неизвестный символ: {c}",
        "unknown character: {c}",
    ),
    (
        "calc.err.unknown_const",
        "неизвестная константа: {name}",
        "unknown constant: {name}",
    ),
    (
        "calc.err.unknown_func",
        "неизвестная функция: {name}",
        "unknown function: {name}",
    ),
    (
        "calc.number.nan",
        "не число",
        "not a number",
    ),
    (
        "notes.block.cited_sources",
        "Ссылки на источники:",
        "Cited sources:",
    ),
    (
        "notes.block.cited_sources.item",
        "- {id}: {s}",
        "- {id}: {s}",
    ),
    (
        "notes.block.related",
        "Связанные заметки:",
        "Related notes:",
    ),
    (
        "notes.block.self_related",
        "Связанные наблюдения:",
        "Related observations:",
    ),
    (
        "notes.err.bad_id_field",
        "Поле {key}: некорректный идентификатор «{raw}».",
        "Field {key}: \"{raw}\" is no identifier.",
    ),
    (
        "notes.err.content_empty",
        "Содержание заметки пусто.",
        "The note has no content.",
    ),
    (
        "notes.err.content_string",
        "Ожидается строковое поле content.",
        "The field content has to be a string.",
    ),
    (
        "notes.err.unknown_relation",
        "Неизвестная связь «{relation}». Допустимы: {allowed}.",
        "Unknown relation \"{relation}\". Known ones: {allowed}.",
    ),
    (
        "notes.mark.note",
        "[заметка]",
        "[note]",
    ),
    (
        "notes.mark.self",
        "[о себе]",
        "[about self]",
    ),
    (
        "notes.overview.active",
        "Активных заметок: {n}, без связей: {d}.",
        "Active notes: {n}, without links: {d}.",
    ),
    (
        "notes.overview.contradicts",
        "Связи contradicts: {n}",
        "contradicts links: {n}",
    ),
    (
        "notes.overview.dangling",
        "Заметки без связей: {n}",
        "Notes without links: {n}",
    ),
    (
        "notes.overview.empty",
        "Заметок пока нет.",
        "There are no notes yet.",
    ),
    (
        "notes.overview.header",
        "Обзор базы знаний",
        "Overview of the notes",
    ),
    (
        "notes.overview.pairs",
        "Похожие пары (возможные дубли, сходство от {sim}): {n}",
        "Similar pairs (possible duplicates, likeness from {sim}): {n}",
    ),
    (
        "notes.result.not_found",
        "Заметка {id} не найдена.",
        "Note {id} was not found.",
    ),
    (
        "notes.self_overview.contradicts",
        "Связи contradicts среди наблюдений: {n}",
        "contradicts links among the observations: {n}",
    ),
    (
        "notes.self_overview.count",
        "Наблюдений: {n}, без связей: {d}.",
        "Observations: {n}, without links: {d}.",
    ),
    (
        "notes.self_overview.dangling",
        "Наблюдения без связей: {n}",
        "Observations without links: {n}",
    ),
    (
        "notes.self_overview.header",
        "Обзор наблюдений о себе",
        "Overview of the observations about self",
    ),
    (
        "notes.self_overview.summary_obs",
        "Абзацы сводки, совпадающие с наблюдениями:",
        "Paragraphs of the summary that match observations:",
    ),
    (
        "prompt.workspace.tool.build",
        "соберёт проект",
        "builds the project",
    ),
    (
        "prompt.workspace.tool.edit",
        "заменит фрагмент файла",
        "replaces a fragment of a file",
    ),
    (
        "prompt.workspace.tool.grep",
        "найдёт строки по шаблону",
        "finds lines by a pattern",
    ),
    (
        "prompt.workspace.tool.list",
        "покажет файлы",
        "lists files",
    ),
    (
        "prompt.workspace.tool.read",
        "прочитает файл",
        "reads a file",
    ),
    (
        "prompt.workspace.tool.run",
        "запустит проект",
        "runs the project",
    ),
    (
        "prompt.workspace.tool.test",
        "прогонит тесты",
        "runs the tests",
    ),
    (
        "prompt.workspace.tool.write",
        "запишет файл целиком",
        "writes a whole file",
    ),
    (
        "tool.add_insight.desc",
        "Добавить вывод в модель себя.",
        "Add an insight to the self-model.",
    ),
    (
        "tool.attachment_read.ambiguous",
        "Имени «{name}» отвечают несколько файлов: {sources}. Укажи источник вместо имени.",
        "Several files answer to \"{name}\": {sources}. Give the source in place of the name.",
    ),
    (
        "tool.attachment_read.bad_page",
        "Страницы {page} нет в файле «{name}»: всего страниц {total}.",
        "There is no page {page} in \"{name}\": it has {total} page(s).",
    ),
    (
        "tool.attachment_read.desc",
        "Прочитать страницу прикреплённого к чату файла.",
        "Read a page of a file attached to the chat.",
    ),
    (
        "tool.attachment_read.header",
        "Файл «{name}», страница {page} из {total}:",
        "File \"{name}\", page {page} of {total}:",
    ),
    (
        "tool.attachment_read.none",
        "К чату не прикреплено ни одного файла.",
        "No file is attached to the chat.",
    ),
    (
        "tool.attachment_read.param.name",
        "Имя файла или его источник",
        "The name of the file, or its source",
    ),
    (
        "tool.attachment_read.param.page",
        "Номер страницы, по умолчанию первая",
        "The number of the page; the first by default",
    ),
    (
        "tool.attachment_read.unknown",
        "Файла «{name}» нет среди прикреплённых: {names}.",
        "\"{name}\" is not among the attached files: {names}.",
    ),
    (
        "tool.attachment_search.desc",
        "Найти место в прикреплённых файлах по смыслу.",
        "Find a place in the attached files by meaning.",
    ),
    (
        "tool.attachment_search.err.query_empty",
        "Запрос пуст.",
        "The query is empty.",
    ),
    (
        "tool.attachment_search.not_indexed",
        "Прикреплённые файлы не проиндексированы. Прочитай их постранично через attachment_read.",
        "The attached files are not indexed. Read them page by page with attachment_read.",
    ),
    (
        "tool.attachment_search.param.query",
        "Что искать, своими словами",
        "What to look for, in your own words",
    ),
    (
        "tool.attachment_search.param.top_k",
        "Сколько фрагментов вернуть",
        "How many fragments to return",
    ),
    (
        "tool.attachment_search.result.empty",
        "Ничего не нашлось. Весь файл доступен через attachment_read.",
        "Nothing was found. The whole file can be read with attachment_read.",
    ),
    (
        "tool.attachment_search.result.header",
        "Найдено фрагментов: {n}",
        "Fragments found: {n}",
    ),
    (
        "tool.attachment_search.result.hint",
        "Остальное читается постранично через attachment_read.",
        "The rest is read page by page with attachment_read.",
    ),
    (
        "tool.calculate.desc",
        "Вычислить математическое выражение.",
        "Work out a mathematical expression.",
    ),
    (
        "tool.calculate.err.expr_empty",
        "Ожидается непустое поле expression.",
        "The field expression has to be filled in.",
    ),
    (
        "tool.calculate.param.expression",
        "Выражение: + - * / % ^, скобки, функции и константы",
        "The expression: + - * / % ^, brackets, functions and constants",
    ),
    (
        "tool.calculate.result.failed",
        "Не удалось вычислить «{expr}»: {err}",
        "Could not work out \"{expr}\": {err}",
    ),
    (
        "tool.call_subagent.desc",
        "Поручить задачу субагенту.",
        "Give a task to a subagent.",
    ),
    (
        "tool.call_subagent.param.message",
        "Задача субагента",
        "The task of the subagent",
    ),
    (
        "tool.call_subagent.param.name",
        "Имя субагента",
        "The name of the subagent",
    ),
    (
        "tool.call_subagent.param.system_message",
        "Системное сообщение субагента",
        "The system message of the subagent",
    ),
    (
        "tool.chat_read.ambiguous",
        "«{chat}» подходит к нескольким разговорам: {candidates}. Укажи адрес.",
        "\"{chat}\" fits several conversations: {candidates}. Give the address.",
    ),
    (
        "tool.chat_read.bad_page",
        "Страницы {page} нет в разговоре «{title}»: всего страниц {total}.",
        "There is no page {page} in \"{title}\": it has {total} page(s).",
    ),
    (
        "tool.chat_read.desc",
        "Прочитать страницу другого разговора профиля.",
        "Read a page of another conversation of the profile.",
    ),
    (
        "tool.chat_read.empty",
        "В разговоре «{title}» пока нечего читать.",
        "There is nothing to read in \"{title}\" yet.",
    ),
    (
        "tool.chat_read.err.chat_empty",
        "Ожидается непустое поле chat.",
        "The field chat has to be filled in.",
    ),
    (
        "tool.chat_read.header",
        "Разговор «{title}» ({id}), страница {page} из {total}:",
        "Conversation \"{title}\" ({id}), page {page} of {total}:",
    ),
    (
        "tool.chat_read.param.chat",
        "Адрес разговора или его название",
        "The address of the conversation, or its title",
    ),
    (
        "tool.chat_read.param.page",
        "Номер страницы, по умолчанию первая",
        "The number of the page; the first by default",
    ),
    (
        "tool.chat_read.unavailable",
        "Разговор «{title}» сейчас прочитать не получается.",
        "The conversation \"{title}\" cannot be read at the moment.",
    ),
    (
        "tool.chat_read.unknown",
        "Разговора «{chat}» нет. Найди его через chat_search.",
        "There is no conversation \"{chat}\". Find it with chat_search.",
    ),
    (
        "tool.chat_search.chat",
        "«{title}» ({id}), {date}",
        "\"{title}\" ({id}), {date}",
    ),
    (
        "tool.chat_search.child",
        "{title} (внутри «{parent}»)",
        "{title} (inside \"{parent}\")",
    ),
    (
        "tool.chat_search.desc",
        "Искать в других разговорах профиля.",
        "Search the other conversations of the profile.",
    ),
    (
        "tool.chat_search.empty",
        "Совпадений нет. Любой разговор можно прочитать через chat_read.",
        "Nothing matches. Any conversation can be read with chat_read.",
    ),
    (
        "tool.chat_search.err.query_empty",
        "Запрос пуст.",
        "The query is empty.",
    ),
    (
        "tool.chat_search.header",
        "Показано совпадений: {n} из {total}",
        "Matches shown: {n} of {total}",
    ),
    (
        "tool.chat_search.hint",
        "Прочитать разговор целиком: chat_read с его адресом.",
        "To read a conversation whole: chat_read with its address.",
    ),
    (
        "tool.chat_search.hit",
        "{n}. {role}, {date} [страница {page}]",
        "{n}. {role}, {date} [page {page}]",
    ),
    (
        "tool.chat_search.hit_unpaged",
        "{n}. {role}, {date}",
        "{n}. {role}, {date}",
    ),
    (
        "tool.chat_search.param.query",
        "Слова, которые ищутся",
        "The words to look for",
    ),
    (
        "tool.chat_search.param.top_k",
        "Сколько совпадений вернуть",
        "How many matches to return",
    ),
    (
        "tool.chat_search.too_short",
        "Запрос слишком короткий для поиска. Разговор можно прочитать через chat_read.",
        "The query is too short to search for. A conversation can be read with chat_read.",
    ),
    (
        "tool.chat_search.unavailable",
        "Поиск сейчас недоступен. Разговор можно прочитать через chat_read.",
        "The search is not available now. A conversation can be read with chat_read.",
    ),
    (
        "tool.chats.none",
        "Других разговоров в профиле нет.",
        "The profile has no other conversations.",
    ),
    (
        "tool.code.cmd.busy",
        "Другая команда ещё выполняется.",
        "Another command is still running.",
    ),
    (
        "tool.code.cmd.cancelled",
        "Команда отменена.",
        "The command was cancelled.",
    ),
    (
        "tool.code.cmd.finished",
        "Команда завершилась за {secs} с.",
        "The command ended after {secs} s.",
    ),
    (
        "tool.code.cmd.not_set",
        "Команда «{slot}» не задана. Её задаёт пользователь: {cmd}.",
        "The command \"{slot}\" is not set. The user sets it: {cmd}.",
    ),
    (
        "tool.code.cmd.shell",
        "Команда использует оболочку (символ «{char}»): {line}",
        "The command uses a shell (the character \"{char}\"): {line}",
    ),
    (
        "tool.code.cmd.timed_out",
        "Команда не уложилась в {secs} с и остановлена.",
        "The command did not end within {secs} s and was stopped.",
    ),
    (
        "tool.code.cmd.truncated",
        "[пропущено символов: {n}]",
        "[characters left out: {n}]",
    ),
    (
        "tool.code.edit.ambiguous",
        "Фрагмент встречается в {path} {n} раз. Добавь контекст или replace_all.",
        "The fragment occurs in {path} {n} times. Add context, or replace_all.",
    ),
    (
        "tool.code.edit.not_found",
        "Фрагмента нет в {path}.",
        "The fragment is not in {path}.",
    ),
    (
        "tool.code.edit.ok",
        "Изменён {path}, замен: {n}.",
        "Changed {path}, replacements: {n}.",
    ),
    (
        "tool.code.err.bad_offset",
        "Такой строки нет: всего строк {total}.",
        "There is no such line: the file has {total} line(s).",
    ),
    (
        "tool.code.err.binary",
        "Это не текстовый файл.",
        "This is no text file.",
    ),
    (
        "tool.code.err.edit_args",
        "Нужны поля path, old_string и new_string.",
        "The fields path, old_string and new_string are needed.",
    ),
    (
        "tool.code.err.journal_failed",
        "Не удалось сохранить прежнее содержимое: {err}",
        "The previous content could not be kept: {err}",
    ),
    (
        "tool.code.err.no_journal",
        "Журнал изменений недоступен.",
        "The journal of changes is not available.",
    ),
    (
        "tool.code.err.no_root",
        "К чату не подключён проект. Пользователь может подключить его командой /project.",
        "No project is attached to the chat. The user can attach one with the /project command.",
    ),
    (
        "tool.code.err.outside",
        "Путь вне проекта {root}.",
        "The path is outside the project {root}.",
    ),
    (
        "tool.code.err.path_required",
        "Нужен путь внутри проекта.",
        "A path inside the project is needed.",
    ),
    (
        "tool.code.err.pattern_required",
        "Нужен шаблон поиска.",
        "A pattern is needed.",
    ),
    (
        "tool.code.err.too_large",
        "Файл больше {max} байт.",
        "The file has more than {max} bytes.",
    ),
    (
        "tool.code.err.write_args",
        "Нужны поля path и content.",
        "The fields path and content are needed.",
    ),
    (
        "tool.code.grep.bad_glob",
        "Некорректная маска «{glob}»: {err}",
        "\"{glob}\" is no glob: {err}",
    ),
    (
        "tool.code.grep.bad_pattern",
        "Некорректный шаблон «{pattern}»: {err}",
        "\"{pattern}\" is no pattern: {err}",
    ),
    (
        "tool.code.grep.empty",
        "Совпадений с «{pattern}» нет.",
        "Nothing matches \"{pattern}\".",
    ),
    (
        "tool.code.grep.header",
        "Совпадений с «{pattern}»: {n}",
        "Matches of \"{pattern}\": {n}",
    ),
    (
        "tool.code.grep.nothing_searched",
        "Ни один файл не подошёл под «{glob}»: искать «{pattern}» было негде.",
        "No file fits {glob}: there was nothing to look for \"{pattern}\" in.",
    ),
    (
        "tool.code.grep.truncated",
        "Показаны первые {max} совпадений.",
        "The first {max} matches are shown.",
    ),
    (
        "tool.code.list.empty",
        "В {path} ничего нет.",
        "There is nothing in {path}.",
    ),
    (
        "tool.code.list.header",
        "{path}: записей {n}",
        "{path}: {n} entries",
    ),
    (
        "tool.code.list.truncated",
        "Показаны первые {max} записей.",
        "The first {max} entries are shown.",
    ),
    (
        "tool.code.param.content",
        "Новое содержимое файла целиком",
        "The new content of the file, whole",
    ),
    (
        "tool.code.param.depth",
        "Глубина обхода",
        "How deep to go",
    ),
    (
        "tool.code.param.dir",
        "Каталог внутри проекта",
        "A folder inside the project",
    ),
    (
        "tool.code.param.glob",
        "Маска имён файлов",
        "A glob for the names of files",
    ),
    (
        "tool.code.param.grep_dir",
        "Каталог или файл, в котором искать",
        "A folder or a file to search in",
    ),
    (
        "tool.code.param.limit",
        "Сколько строк вернуть",
        "How many lines to return",
    ),
    (
        "tool.code.param.new_string",
        "Чем заменить",
        "What to put in its place",
    ),
    (
        "tool.code.param.offset",
        "С какой строки начать",
        "The line to begin with",
    ),
    (
        "tool.code.param.old_string",
        "Заменяемый фрагмент, дословно",
        "The fragment to replace, letter for letter",
    ),
    (
        "tool.code.param.path",
        "Путь внутри проекта",
        "A path inside the project",
    ),
    (
        "tool.code.param.pattern",
        "Регулярное выражение",
        "A regular expression",
    ),
    (
        "tool.code.param.replace_all",
        "Заменить все вхождения",
        "Replace every occurrence",
    ),
    (
        "tool.code.read.header",
        "{path}, строки {from}–{to} из {total}",
        "{path}, lines {from}-{to} of {total}",
    ),
    (
        "tool.code.read.more",
        "Дальше: offset={next}",
        "To go on: offset={next}",
    ),
    (
        "tool.code.read.cut",
        "Строка {n} длиннее {max} символов: показано только её начало.",
        "Line {n} is longer than {max} characters: only its beginning is shown.",
    ),
    (
        "tool.code.write.created",
        "Создан {path}, строк: {n}.",
        "Created {path}, lines: {n}.",
    ),
    (
        "tool.code.write.replaced",
        "Перезаписан {path}, строк: {n}.",
        "Replaced {path}, lines: {n}.",
    ),
    (
        "tool.code_build.desc",
        "Собрать подключённый проект командой, заданной пользователем.",
        "Build the attached project with the command that the user has set.",
    ),
    (
        "tool.code_edit.desc",
        "Заменить фрагмент файла проекта.",
        "Replace a fragment of a file of the project.",
    ),
    (
        "tool.code_grep.desc",
        "Найти строки проекта по регулярному выражению.",
        "Find lines of the project by a regular expression.",
    ),
    (
        "tool.code_list.desc",
        "Показать файлы проекта.",
        "List the files of the project.",
    ),
    (
        "tool.code_read.desc",
        "Прочитать файл проекта.",
        "Read a file of the project.",
    ),
    (
        "tool.code_run.desc",
        "Запустить подключённый проект командой, заданной пользователем.",
        "Run the attached project with the command that the user has set.",
    ),
    (
        "tool.code_test.desc",
        "Прогнать тесты проекта командой, заданной пользователем.",
        "Test the attached project with the command that the user has set.",
    ),
    (
        "tool.code_write.desc",
        "Записать файл проекта целиком.",
        "Write a whole file of the project.",
    ),
    (
        "tool.consolidate_notes.desc",
        "Получить обзор заметок для их объединения.",
        "Get an overview of the notes, so as to consolidate them.",
    ),
    (
        "tool.consolidate_notes.rubric",
        "Объединяй дубли через note_merge, противоречия разрешай через note_supersede.",
        "Merge duplicates with note_merge, settle contradictions with note_supersede.",
    ),
    (
        "tool.current_time.desc",
        "Узнать текущее время.",
        "Tell the current time.",
    ),
    (
        "tool.current_time.err.bad_format",
        "Неверная строка формата: {fmt}",
        "Not a format: {fmt}",
    ),
    (
        "tool.current_time.local_label",
        "Локальное время:",
        "Local time:",
    ),
    (
        "tool.current_time.param.format",
        "Формат strftime",
        "A strftime format",
    ),
    (
        "tool.elapsed.days",
        "{n} дн",
        "{n} d",
    ),
    (
        "tool.elapsed.hours",
        "{n} ч",
        "{n} h",
    ),
    (
        "tool.elapsed.minutes",
        "{n} мин",
        "{n} min",
    ),
    (
        "tool.elapsed.seconds",
        "{n} с",
        "{n} s",
    ),
    (
        "tool.fetch_url.attachment.header",
        "{name}\nИсточник: {url}",
        "{name}\nSource: {url}",
    ),
    (
        "tool.fetch_url.desc",
        "Загрузить страницу по адресу и пересказать её.",
        "Fetch a page by its address and sum it up.",
    ),
    (
        "tool.fetch_url.err.address_blocked",
        "Этот адрес недоступен по настройкам: локальные и частные адреса закрыты.",
        "The settings do not allow this address: local and private ones are closed.",
    ),
    (
        "tool.fetch_url.err.compressed",
        "Страница сжата неизвестным способом: {coding}",
        "The page is compressed in an unknown way: {coding}",
    ),
    (
        "tool.fetch_url.err.no_text",
        "Не удалось извлечь читаемый текст.",
        "No readable text could be extracted.",
    ),
    (
        "tool.fetch_url.err.read",
        "Не удалось прочитать ответ {url}",
        "The response of {url} could not be read",
    ),
    (
        "tool.fetch_url.err.request",
        "Не удалось выполнить запрос к {url}",
        "The request to {url} failed",
    ),
    (
        "tool.fetch_url.err.status",
        "Сервер ответил {status}",
        "The server answered {status}",
    ),
    (
        "tool.fetch_url.err.summary_cancelled",
        "Пересказ отменён.",
        "The summary was cancelled.",
    ),
    (
        "tool.fetch_url.err.summary_timeout",
        "Пересказ не уложился в отведённое время.",
        "The summary took too long.",
    ),
    (
        "tool.fetch_url.err.url_empty",
        "Ожидается непустое поле url.",
        "The field url has to be filled in.",
    ),
    (
        "tool.fetch_url.err.url_scheme",
        "Адрес должен начинаться с http:// или https://.",
        "The address has to begin with http:// or https://.",
    ),
    (
        "tool.fetch_url.param.focus",
        "На чём сосредоточиться в пересказе",
        "What the summary should attend to",
    ),
    (
        "tool.fetch_url.param.summarize",
        "Пересказать (по умолчанию) или вернуть текст",
        "Sum up (by default), or return the text",
    ),
    (
        "tool.fetch_url.param.url",
        "Адрес страницы",
        "The address of the page",
    ),
    (
        "tool.fetch_url.result.attached",
        "Страница прикреплена целиком: «{name}», страниц {pages}. Читай через attachment_read, ищи через attachment_search.",
        "The whole page is attached: \"{name}\", {pages} page(s). Read it with attachment_read, search it with attachment_search.",
    ),
    (
        "tool.fetch_url.result.content",
        "Содержимое {url}:",
        "Content of {url}:",
    ),
    (
        "tool.fetch_url.result.content_no_summary",
        "Пересказ недоступен. Содержимое {url}:",
        "No summary is available. Content of {url}:",
    ),
    (
        "tool.fetch_url.result.fetch_failed",
        "Не удалось загрузить {url}: {err}",
        "{url} could not be fetched: {err}",
    ),
    (
        "tool.fetch_url.result.truncated",
        "[Страница очень велика: взято только её начало.]",
        "[The page is very large: only its beginning was taken.]",
    ),
    (
        "tool.fetch_url.result.youtube",
        "Это страница видео. Содержание даёт youtube_watch.",
        "This is the page of a video. What is in it, youtube_watch tells.",
    ),
    (
        "tool.fetch_url.summarize.system",
        "Ты кратко и точно пересказываешь страницы.",
        "You sum pages up briefly and exactly.",
    ),
    (
        "tool.fetch_url.summarize.task",
        "Перескажи страницу {url}:\n\n{text}",
        "Sum up the page {url}:\n\n{text}",
    ),
    (
        "tool.fetch_url.summarize.task_focus",
        "Перескажи страницу {url}, отвечая на вопрос: {f}\n\n{text}",
        "Sum up the page {url}, answering: {f}\n\n{text}",
    ),
    (
        "tool.fs.err.app_dir",
        "Собственные каталоги приложения недоступны.",
        "The application's own folders are out of reach.",
    ),
    (
        "tool.fs.err.dangling_link",
        "Ссылка указывает на отсутствующий файл.",
        "The link points to a file that is not there.",
    ),
    (
        "tool.fs.err.empty_path",
        "Пустой путь.",
        "The path is empty.",
    ),
    (
        "tool.fs.err.no_filename",
        "У пути нет имени файла.",
        "The path has no file name.",
    ),
    (
        "tool.fs.err.no_parent",
        "У пути нет родительского каталога.",
        "The path has no folder above it.",
    ),
    (
        "tool.fs.err.no_root",
        "Папка для файловых инструментов не задана в настройках.",
        "The settings name no folder for the file tools.",
    ),
    (
        "tool.fs.err.outside_sandbox",
        "Путь вне разрешённой папки {root}.",
        "The path is outside the allowed folder {root}.",
    ),
    (
        "tool.fs.err.parent_unavailable",
        "Каталог {path} недоступен.",
        "The folder {path} cannot be reached.",
    ),
    (
        "tool.fs.err.path_field_empty",
        "Ожидается непустое поле path.",
        "The field path has to be filled in.",
    ),
    (
        "tool.fs.err.sandbox_unavailable",
        "Папка {path} недоступна.",
        "The folder {path} cannot be reached.",
    ),
    (
        "tool.fs.param.dir_path",
        "Путь к каталогу",
        "The path of a folder",
    ),
    (
        "tool.fs.param.file_path",
        "Путь к файлу",
        "The path of a file",
    ),
    (
        "tool.fs.truncated_read",
        "[Показаны первые {max} символов.]",
        "[The first {max} characters are shown.]",
    ),
    (
        "tool.fs_list.desc",
        "Показать содержимое каталога.",
        "List a folder.",
    ),
    (
        "tool.fs_list.result.empty",
        "Каталог {path} пуст.",
        "The folder {path} is empty.",
    ),
    (
        "tool.fs_list.result.header",
        "{path}: записей {n}",
        "{path}: {n} entries",
    ),
    (
        "tool.fs_list.result.open_failed",
        "Не удалось открыть {path}: {err}",
        "{path} could not be opened: {err}",
    ),
    (
        "tool.fs_list.truncated",
        "[Показаны первые {max} записей.]",
        "[The first {max} entries are shown.]",
    ),
    (
        "tool.fs_read.decoded_as",
        "[Прочитано как {encoding}]",
        "[Read as {encoding}]",
    ),
    (
        "tool.fs_read.desc",
        "Прочитать текстовый файл.",
        "Read a text file.",
    ),
    (
        "tool.fs_read.result.binary",
        "{path}: это не текстовый файл.",
        "{path}: this is no text file.",
    ),
    (
        "tool.fs_read.result.read_failed",
        "Не удалось прочитать {path}: {err}",
        "Could not read {path}: {err}",
    ),
    (
        "tool.fs_write.desc",
        "Записать текст в файл.",
        "Write a text to a file.",
    ),
    (
        "tool.fs_write.err.content",
        "Ожидается строковое поле content.",
        "The field content has to be a string.",
    ),
    (
        "tool.fs_write.param.append",
        "Дописать в конец вместо замены",
        "Append in place of replacing",
    ),
    (
        "tool.fs_write.param.content",
        "Текст",
        "The text",
    ),
    (
        "tool.fs_write.result.appended",
        "Дописано в {path}, символов: {n}.",
        "Appended to {path}, characters: {n}.",
    ),
    (
        "tool.fs_write.result.write_failed",
        "Не удалось записать {path}: {err}",
        "Could not write {path}: {err}",
    ),
    (
        "tool.fs_write.result.written",
        "Записано в {path}, символов: {n}.",
        "Written to {path}, characters: {n}.",
    ),
    (
        "tool.get_last_user_message_time.desc",
        "Вернуть время последнего сообщения пользователя (ISO 8601) и сколько прошло.",
        "Tell when the user last wrote (ISO 8601) and how long ago that was.",
    ),
    (
        "tool.get_last_user_message_time.none",
        "Пользователь ещё не отправлял сообщений в этом чате.",
        "The user has not written in this chat yet.",
    ),
    (
        "tool.get_last_user_message_time.result",
        "Последнее сообщение пользователя: {time} ({ago} назад).",
        "The user's last message: {time} ({ago} ago).",
    ),
    (
        "tool.get_llm_history.current",
        "Сейчас: {name} ({mode})",
        "Now: {name} ({mode})",
    ),
    (
        "tool.get_llm_history.desc",
        "Показать, какие языковые модели вели этот чат.",
        "Show which language models have run this chat.",
    ),
    (
        "tool.get_llm_history.empty",
        "Смен модели не было.",
        "The model has not changed.",
    ),
    (
        "tool.get_llm_history.header",
        "Смен модели: {count}",
        "Changes of the model: {count}",
    ),
    (
        "tool.get_llm_name.desc",
        "Показать название языковой модели.",
        "Show the name of the language model.",
    ),
    (
        "tool.get_llm_name.result",
        "Модель: {name} ({mode})",
        "Model: {name} ({mode})",
    ),
    (
        "tool.get_llm_name.unknown",
        "Название модели неизвестно ({mode}).",
        "The name of the model is not known ({mode}).",
    ),
    (
        "tool.get_sampling.desc",
        "Вернуть текущие параметры семплинга.",
        "Return the sampling parameters in force.",
    ),
    (
        "tool.get_self_model.desc",
        "Показать модель себя.",
        "Show the self-model.",
    ),
    (
        "tool.get_system_message.desc",
        "Вернуть текущее системное сообщение чата.",
        "Return the chat's system message.",
    ),
    (
        "tool.history.none",
        "В этом разговоре ничего не сжато: все сообщения перед тобой.",
        "Nothing in this conversation has been folded: all messages are before you.",
    ),
    (
        "tool.history_read.bad_page",
        "Страницы {page} нет: всего страниц {total}.",
        "There is no page {page}: there are {total} page(s).",
    ),
    (
        "tool.history_read.desc",
        "Прочитать страницу сжатой части разговора.",
        "Read a page of the folded part of the conversation.",
    ),
    (
        "tool.history_read.header",
        "Сжатая часть разговора, страница {page} из {total}:",
        "The folded part of the conversation, page {page} of {total}:",
    ),
    (
        "tool.history_read.param.page",
        "Номер страницы, по умолчанию первая",
        "The number of the page; the first by default",
    ),
    (
        "tool.history_search.desc",
        "Искать в сжатой части разговора.",
        "Search the folded part of the conversation.",
    ),
    (
        "tool.history_search.empty",
        "Совпадений нет. Всё можно прочитать через history_read.",
        "Nothing matches. Everything can be read with history_read.",
    ),
    (
        "tool.history_search.err.query_empty",
        "Запрос пуст.",
        "The query is empty.",
    ),
    (
        "tool.history_search.header",
        "Показано совпадений: {n} из {total}",
        "Matches shown: {n} of {total}",
    ),
    (
        "tool.history_search.hint",
        "Страница целиком: history_read с её номером.",
        "A whole page: history_read with its number.",
    ),
    (
        "tool.history_search.hit",
        "{n}. [страница {page}]",
        "{n}. [page {page}]",
    ),
    (
        "tool.history_search.param.query",
        "Слова, которые ищутся",
        "The words to look for",
    ),
    (
        "tool.history_search.param.top_k",
        "Сколько совпадений вернуть",
        "How many matches to return",
    ),
    (
        "tool.history_search.too_short",
        "Запрос слишком короткий для поиска. Всё можно прочитать через history_read.",
        "The query is too short to search for. Everything can be read with history_read.",
    ),
    (
        "tool.history_search.unavailable",
        "Поиск сейчас недоступен. Всё можно прочитать через history_read.",
        "The search is not available now. Everything can be read with history_read.",
    ),
    (
        "tool.mcp.error_empty",
        "Инструмент сообщил об ошибке без пояснения.",
        "The tool reported an error without a word.",
    ),
    (
        "tool.mcp.images_off",
        "Изображений не передано: {n} (выключены в настройках).",
        "Images held back: {n} (they are off in the settings).",
    ),
    (
        "tool.mcp.result_truncated",
        "[результат усечён]",
        "[result truncated]",
    ),
    (
        "tool.note_cite_source.desc",
        "Связать заметку с источником из базы знаний.",
        "Tie a note to a source from the knowledge base.",
    ),
    (
        "tool.note_cite_source.err.source_empty",
        "Ожидается непустое поле source.",
        "The field source has to be filled in.",
    ),
    (
        "tool.note_cite_source.param.note_id",
        "Идентификатор заметки",
        "The identifier of the note",
    ),
    (
        "tool.note_cite_source.param.source",
        "Название источника",
        "The name of the source",
    ),
    (
        "tool.note_cite_source.result.created",
        "Связь с источником создана",
        "The tie to the source was made",
    ),
    (
        "tool.note_cite_source.result.existed",
        "Связь с источником уже существовала",
        "The tie to the source was there already",
    ),
    (
        "tool.note_cite_source.result.line",
        "{verb}: {note_id} → {source}",
        "{verb}: {note_id} -> {source}",
    ),
    (
        "tool.note_cite_source.result.note_missing",
        "Заметка {id} не найдена.",
        "Note {id} was not found.",
    ),
    (
        "tool.note_cite_source.result.source_missing",
        "Источник «{source}» не найден в базе знаний.",
        "The source \"{source}\" is not in the knowledge base.",
    ),
    (
        "tool.note_link.desc",
        "Связать две заметки.",
        "Link two notes.",
    ),
    (
        "tool.note_link.err.self",
        "Заметку нельзя связать с самой собой.",
        "A note cannot be linked to itself.",
    ),
    (
        "tool.note_link.param.from_id",
        "Идентификатор исходной заметки",
        "The identifier of the first note",
    ),
    (
        "tool.note_link.param.relation",
        "Вид связи",
        "The relation",
    ),
    (
        "tool.note_link.param.to_id",
        "Идентификатор второй заметки",
        "The identifier of the second note",
    ),
    (
        "tool.note_link.result.created",
        "Связь создана",
        "The link was made",
    ),
    (
        "tool.note_link.result.existed",
        "Связь уже существовала",
        "The link was there already",
    ),
    (
        "tool.note_link.result.line",
        "{verb}: {from} —{relation}→ {to}",
        "{verb}: {from} -{relation}-> {to}",
    ),
    (
        "tool.note_link.result.missing",
        "Заметки не найдены.",
        "The notes were not found.",
    ),
    (
        "tool.note_merge.desc",
        "Объединить несколько заметок в одну.",
        "Merge several notes into one.",
    ),
    (
        "tool.note_merge.err.min_two",
        "Нужны хотя бы две заметки.",
        "Two notes at least are needed.",
    ),
    (
        "tool.note_merge.param.content",
        "Содержание объединённой заметки",
        "The content of the merged note",
    ),
    (
        "tool.note_merge.param.ids",
        "Идентификаторы заметок",
        "The identifiers of the notes",
    ),
    (
        "tool.note_merge.result.done",
        "Объединено заметок: {n}. Новая заметка: {new_id}",
        "Notes merged: {n}. The new note: {new_id}",
    ),
    (
        "tool.note_neighbors.desc",
        "Показать связи заметки.",
        "Show the links of a note.",
    ),
    (
        "tool.note_neighbors.param.id",
        "Идентификатор заметки",
        "The identifier of the note",
    ),
    (
        "tool.note_neighbors.param.relation",
        "Только связи этого вида",
        "Only links of this relation",
    ),
    (
        "tool.note_neighbors.result.empty",
        "У заметки нет связей.",
        "The note has no links.",
    ),
    (
        "tool.note_neighbors.result.header",
        "Связи заметки {id}:",
        "Links of note {id}:",
    ),
    (
        "tool.note_recall.desc",
        "Найти заметки по смыслу или тегам.",
        "Find notes by meaning or by tags.",
    ),
    (
        "tool.note_recall.param.query",
        "Что вспомнить",
        "What to recall",
    ),
    (
        "tool.note_recall.result.empty",
        "Заметки не найдены.",
        "No notes were found.",
    ),
    (
        "tool.note_recall.result.header",
        "Найдено заметок: {n}",
        "Notes found: {n}",
    ),
    (
        "tool.note_revise.desc",
        "Переписать заметку.",
        "Rewrite a note.",
    ),
    (
        "tool.note_revise.err.bad_id",
        "Некорректный идентификатор заметки: {id}",
        "No identifier of a note: {id}",
    ),
    (
        "tool.note_revise.param.content",
        "Новое содержание",
        "The new content",
    ),
    (
        "tool.note_revise.param.id",
        "Идентификатор заметки",
        "The identifier of the note",
    ),
    (
        "tool.note_revise.result.done",
        "Заметка {id} переписана.",
        "Note {id} was rewritten.",
    ),
    (
        "tool.note_revise.warn.links",
        "У заметки есть связи: {links}. Если смысл изменился, используй note_supersede.",
        "The note has links: {links}. If its meaning has changed, use note_supersede.",
    ),
    (
        "tool.note_save.desc",
        "Сохранить заметку.",
        "Save a note.",
    ),
    (
        "tool.note_save.gate.similar",
        "Похожие заметки:",
        "Similar notes:",
    ),
    (
        "tool.note_save.param.content",
        "Содержание заметки",
        "The content of the note",
    ),
    (
        "tool.note_save.result.saved",
        "Заметка сохранена: {id}",
        "The note was saved: {id}",
    ),
    (
        "tool.note_supersede.desc",
        "Заменить заметку новой, сохранив старую в истории.",
        "Put a new note in the place of an old one, which stays in the history.",
    ),
    (
        "tool.note_supersede.param.content",
        "Содержание новой заметки",
        "The content of the new note",
    ),
    (
        "tool.note_supersede.param.old_id",
        "Идентификатор старой заметки",
        "The identifier of the old note",
    ),
    (
        "tool.note_supersede.result.done",
        "Заметка {old_id} замещена новой: {new_id}",
        "Note {old_id} was superseded by {new_id}",
    ),
    (
        "tool.python_exec.desc",
        "Выполнить код на Python.",
        "Run Python code.",
    ),
    (
        "tool.rag_add.desc",
        "Добавить текст в базу знаний.",
        "Add a text to the knowledge base.",
    ),
    (
        "tool.rag_search.desc",
        "Искать в базе знаний.",
        "Search the knowledge base.",
    ),
    (
        "tool.reflect.desc",
        "Осмыслить недавний опыт.",
        "Reflect on what has happened.",
    ),
    (
        "tool.rewrite_current_message.desc",
        "Переписать текущий ответ.",
        "Write the current reply again.",
    ),
    (
        "tool.run_dialogue.desc",
        "Провести диалог двух персонажей.",
        "Run a dialogue between two personas.",
    ),
    (
        "tool.run_dialogue.err.opening",
        "Нужна первая реплика: opening.text.",
        "An opening line is needed: opening.text.",
    ),
    (
        "tool.run_dialogue.err.personas",
        "Нужны system_message обоих участников.",
        "Both participants need a system_message.",
    ),
    (
        "tool.run_dialogue.fallback_a",
        "Участник А",
        "Participant A",
    ),
    (
        "tool.run_dialogue.fallback_b",
        "Участник Б",
        "Participant B",
    ),
    (
        "tool.run_dialogue.param.a",
        "Первый участник",
        "The first participant",
    ),
    (
        "tool.run_dialogue.param.b",
        "Второй участник",
        "The second participant",
    ),
    (
        "tool.run_dialogue.param.direction",
        "Указания режиссёру",
        "What the director should attend to",
    ),
    (
        "tool.run_dialogue.param.max_messages",
        "Сколько реплик сыграть",
        "How many lines to play",
    ),
    (
        "tool.run_dialogue.param.moderate_every",
        "Через сколько реплик вмешивается режиссёр",
        "After how many lines the director looks in",
    ),
    (
        "tool.run_dialogue.param.opening",
        "Первая реплика",
        "The opening line",
    ),
    (
        "tool.run_dialogue.param.opening_speaker",
        "Кто её произносит",
        "Who says it",
    ),
    (
        "tool.run_dialogue.param.persona_name",
        "Имя участника",
        "The name of the participant",
    ),
    (
        "tool.run_dialogue.param.persona_system",
        "Системное сообщение участника",
        "The system message of the participant",
    ),
    (
        "tool.run_dialogue.param.scene",
        "Обстановка",
        "The scene",
    ),
    (
        "tool.run_dialogue.result.loop_only",
        "Диалог можно провести только в ходе разговора.",
        "A dialogue can be run only within a conversation.",
    ),
    (
        "tool.run_dialogue.verdict.continue",
        "Продолжать диалог.",
        "Go on with the dialogue.",
    ),
    (
        "tool.run_dialogue.verdict.note",
        "Дать указание участнику.",
        "Give a participant a note.",
    ),
    (
        "tool.run_dialogue.verdict.note_to",
        "Кому: a — {a}, b — {b}, both — обоим",
        "To whom: a is {a}, b is {b}, both is both of them",
    ),
    (
        "tool.run_dialogue.verdict.retry",
        "Сыграть последнюю реплику заново.",
        "Play the last line again.",
    ),
    (
        "tool.run_dialogue.verdict.retry_note",
        "Что изменить",
        "What to change",
    ),
    (
        "tool.run_dialogue.verdict.rewrite",
        "Заменить последнюю реплику.",
        "Put another line in the place of the last.",
    ),
    (
        "tool.run_dialogue.verdict.stop",
        "Закончить диалог.",
        "End the dialogue.",
    ),
    (
        "tool.run_dialogue.verdict.stop_reason",
        "Причина",
        "The reason",
    ),
    (
        "tool.run_dialogue.verdict.stop_summary",
        "Итог",
        "The upshot",
    ),
    (
        "tool.sampling.scope_all",
        "Доступны все параметры (temperature, top_k, min_p и т.д.).",
        "All parameters are available (temperature, top_k, min_p and so on).",
    ),
    (
        "tool.sampling.scope_fields",
        "В текущем режиме доступны только: {fields}.",
        "In this mode only these are available: {fields}.",
    ),
    (
        "tool.send_followup_message.desc",
        "Отправить ещё одно сообщение.",
        "Send another message.",
    ),
    (
        "tool.set_sampling.desc",
        "Изменить параметры семплинга чата. Указанные поля переопределяют текущие; применяется со следующего ответа.",
        "Change the chat's sampling parameters. The fields given take the place of those in force; it applies from the next reply on.",
    ),
    (
        "tool.set_sampling.err.bad_value",
        "неверные аргументы set_sampling: {e}",
        "wrong arguments of set_sampling: {e}",
    ),
    (
        "tool.set_sampling.err.not_object",
        "неверные аргументы set_sampling: ожидался объект, получено {value}",
        "wrong arguments of set_sampling: expected an object, got {value}",
    ),
    (
        "tool.set_sampling.result.dropped",
        ". Проигнорированы недоступные в текущем режиме поля: {fields}",
        ". Fields that this mode does not have were passed over: {fields}",
    ),
    (
        "tool.set_sampling.result.updated",
        "Семплинг обновлён: {json}",
        "Sampling updated: {json}",
    ),
    (
        "tool.set_system_message.desc",
        "Изменить системное сообщение чата. Применяется со следующего ответа.",
        "Change the chat's system message. It applies from the next reply on.",
    ),
    (
        "tool.set_system_message.err.missing",
        "ожидается строковое поле system_message",
        "the field system_message has to be a string",
    ),
    (
        "tool.set_system_message.result",
        "Системное сообщение обновлено.",
        "The system message was updated.",
    ),
    (
        "tool.start_dialogue.desc",
        "Провести диалог двух персонажей в фоне.",
        "Run a dialogue between two personas in the background.",
    ),
    (
        "tool.update_self_model.desc",
        "Обновить модель себя.",
        "Update the self-model.",
    ),
    (
        "tool.update_user_model.desc",
        "Обновить модель пользователя.",
        "Update the model of the user.",
    ),
    (
        "tool.web_search.desc",
        "Искать в интернете.",
        "Search the web.",
    ),
    (
        "tool.youtube_watch.desc",
        "Посмотреть видео и рассказать о нём.",
        "Watch a video and tell about it.",
    ),
    (
        "ui.tool.group.conversation",
        "Управление разговором",
        "Conversation control",
    ),
    (
        "ui.tool.group.external_world",
        "Внешний мир",
        "External world",
    ),
    (
        "ui.tool.group.files",
        "Файлы",
        "Files",
    ),
    (
        "ui.tool.group.introspection",
        "Интроспекция",
        "Introspection",
    ),
    (
        "ui.tool.group.memory",
        "Память и знания",
        "Memory and knowledge",
    ),
    (
        "ui.tool.group.plugins",
        "Плагины (MCP)",
        "Plugins (MCP)",
    ),
    (
        "ui.tool.group.self_model",
        "Модель себя",
        "Self-model",
    ),
    (
        "ui.tool.group.subagent",
        "Субагент",
        "Subagent",
    ),
    (
        "ui.tool.group.utils",
        "Утилиты",
        "Utilities",
    ),
    (
        "ui.tool.label.add_insight",
        "добавить вывод",
        "add an insight",
    ),
    (
        "ui.tool.label.attachment_read",
        "читать вложение",
        "read an attached file",
    ),
    (
        "ui.tool.label.attachment_search",
        "искать во вложениях",
        "search attached files",
    ),
    (
        "ui.tool.label.calculate",
        "калькулятор",
        "calculator",
    ),
    (
        "ui.tool.label.call_subagent",
        "вызвать субагента",
        "call a subagent",
    ),
    (
        "ui.tool.label.chat_read",
        "читать другой разговор",
        "read another conversation",
    ),
    (
        "ui.tool.label.chat_search",
        "искать в разговорах",
        "search other conversations",
    ),
    (
        "ui.tool.label.code_build",
        "собрать проект",
        "build the project",
    ),
    (
        "ui.tool.label.code_edit",
        "править файл проекта",
        "edit project file",
    ),
    (
        "ui.tool.label.code_grep",
        "искать в проекте",
        "search project",
    ),
    (
        "ui.tool.label.code_list",
        "файлы проекта",
        "list project files",
    ),
    (
        "ui.tool.label.code_read",
        "читать файл проекта",
        "read project file",
    ),
    (
        "ui.tool.label.code_run",
        "запустить проект",
        "run the project",
    ),
    (
        "ui.tool.label.code_test",
        "тесты проекта",
        "test the project",
    ),
    (
        "ui.tool.label.code_write",
        "записать файл проекта",
        "write project file",
    ),
    (
        "ui.tool.label.consolidate_notes",
        "обзор заметок",
        "notes consolidation",
    ),
    (
        "ui.tool.label.current_time",
        "текущее время",
        "current time",
    ),
    (
        "ui.tool.label.fetch_url",
        "загрузить страницу",
        "fetch page",
    ),
    (
        "ui.tool.label.fs_list",
        "список файлов",
        "list files",
    ),
    (
        "ui.tool.label.fs_read",
        "читать файл",
        "read file",
    ),
    (
        "ui.tool.label.fs_write",
        "записать файл",
        "write file",
    ),
    (
        "ui.tool.label.get_last_user_message_time",
        "время посл. сообщения",
        "time of last message",
    ),
    (
        "ui.tool.label.get_llm_history",
        "история моделей",
        "LLM history",
    ),
    (
        "ui.tool.label.get_llm_name",
        "название модели",
        "show LLM name",
    ),
    (
        "ui.tool.label.get_sampling",
        "показать семплинг",
        "show sampling",
    ),
    (
        "ui.tool.label.get_self_model",
        "показать модель себя",
        "show the self-model",
    ),
    (
        "ui.tool.label.get_system_message",
        "показать сис. сообщение",
        "show system message",
    ),
    (
        "ui.tool.label.history_read",
        "читать сжатую историю",
        "read the summarized history",
    ),
    (
        "ui.tool.label.history_search",
        "искать в сжатой истории",
        "search the summarized history",
    ),
    (
        "ui.tool.label.note_cite_source",
        "сослаться на источник",
        "cite a source",
    ),
    (
        "ui.tool.label.note_link",
        "связать заметки",
        "link notes",
    ),
    (
        "ui.tool.label.note_merge",
        "объединить заметки",
        "merge notes",
    ),
    (
        "ui.tool.label.note_neighbors",
        "связи заметки",
        "note links",
    ),
    (
        "ui.tool.label.note_recall",
        "вспомнить заметки",
        "recall notes",
    ),
    (
        "ui.tool.label.note_revise",
        "переписать заметку",
        "revise note",
    ),
    (
        "ui.tool.label.note_save",
        "сохранить заметку",
        "save note",
    ),
    (
        "ui.tool.label.note_supersede",
        "заместить заметку",
        "supersede note",
    ),
    (
        "ui.tool.label.python_exec",
        "выполнить Python",
        "run Python",
    ),
    (
        "ui.tool.label.rag_add",
        "добавить в знания",
        "add to knowledge",
    ),
    (
        "ui.tool.label.rag_search",
        "искать в знаниях",
        "search knowledge",
    ),
    (
        "ui.tool.label.reflect",
        "осмыслить",
        "reflect",
    ),
    (
        "ui.tool.label.rewrite_current_message",
        "переписать ответ",
        "rewrite reply",
    ),
    (
        "ui.tool.label.run_dialogue",
        "провести диалог",
        "dialogue run",
    ),
    (
        "ui.tool.label.send_followup_message",
        "продолжить сообщение",
        "continue message",
    ),
    (
        "ui.tool.label.set_sampling",
        "изменить семплинг",
        "change sampling",
    ),
    (
        "ui.tool.label.set_system_message",
        "изменить сис. сообщение",
        "change system message",
    ),
    (
        "ui.tool.label.start_dialogue",
        "диалог в фоне",
        "background dialogue",
    ),
    (
        "ui.tool.label.update_self_model",
        "обновить модель себя",
        "update the self-model",
    ),
    (
        "ui.tool.label.update_user_model",
        "обновить модель пользователя",
        "update the user model",
    ),
    (
        "ui.tool.label.web_search",
        "искать в интернете",
        "search the web",
    ),
    (
        "ui.tool.label.youtube_watch",
        "посмотреть видео",
        "watch a video",
    ),
];

} // verus!
